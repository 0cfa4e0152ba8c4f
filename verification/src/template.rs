//! Fetching a template and preparing the new project, as decisions between
//! the outside steps (file system, `git`): the clone with its fallback to the
//! default branch, and the post-processing that resets the repository and
//! renames the package.
use vstd::prelude::*;

use crate::config::{mirrored_url, option_text, Template};
use crate::manifest::{rename_package, renamed_manifest, PackageJsonError};

verus! {

// ─── Cloning ───

/// Why a clone failed.
#[derive(Debug, Clone, Copy, PartialEq, Eq, Structural)]
pub enum CloneError {
    /// The target directory exists and is not empty.
    TargetNotEmpty,
    /// `git` cannot be run.
    GitMissing,
    /// Neither the branch nor the default branch could be cloned.
    CloneFailed,
}

/// Where a clone stands.
#[derive(Debug, Clone, Copy, PartialEq, Eq, Structural)]
pub enum CloneStage {
    InspectingTarget,
    CheckingGit,
    CloningBranch,
    RemovingTarget,
    CloningDefault,
    Finished { failure: Option<CloneError> },
}

/// What the caller is to do next for a clone.
#[derive(Debug)]
pub enum CloneAction {
    /// Tell whether the target directory exists and holds entries.
    InspectTarget,
    /// Tell whether `git --version` can be run.
    CheckGit,
    /// Run `git clone --depth 1 [--branch <branch>] <url> <target>`; first
    /// announce the URL when `announce` holds (a mirror is in use).
    Clone { url: String, branch: Option<String>, announce: bool },
    /// Remove the target directory if it exists, ignoring failures.
    RemoveTarget,
    /// The clone is over, with this outcome.
    Finish(Result<(), CloneError>),
}

/// What the caller reports back after doing a [`CloneAction`].
#[derive(Debug, Clone, Copy, PartialEq, Eq, Structural)]
pub enum CloneEvent {
    TargetInspected { nonempty: bool },
    GitChecked { found: bool },
    CloneExited { success: bool },
    TargetRemoved,
}

/// The clone of one template into one directory.
#[derive(Debug)]
pub struct CloneFlow {
    pub stage: CloneStage,
    /// The repository URL, rewritten through the mirror.
    pub url: String,
    /// The branch tried first.
    pub branch: String,
    /// Whether a mirror is in use.
    pub announce: bool,
}

/// The stage that follows `stage` on `event`; an event that does not answer
/// the stage's action leaves the stage as it is.
pub open spec fn clone_transition(stage: CloneStage, event: CloneEvent) -> CloneStage {
    match (stage, event) {
        (CloneStage::InspectingTarget, CloneEvent::TargetInspected { nonempty }) => if nonempty {
            CloneStage::Finished { failure: Some(CloneError::TargetNotEmpty) }
        } else {
            CloneStage::CheckingGit
        },
        (CloneStage::CheckingGit, CloneEvent::GitChecked { found }) => if found {
            CloneStage::CloningBranch
        } else {
            CloneStage::Finished { failure: Some(CloneError::GitMissing) }
        },
        (CloneStage::CloningBranch, CloneEvent::CloneExited { success }) => if success {
            CloneStage::Finished { failure: None }
        } else {
            CloneStage::RemovingTarget
        },
        (CloneStage::RemovingTarget, CloneEvent::TargetRemoved) => CloneStage::CloningDefault,
        (CloneStage::CloningDefault, CloneEvent::CloneExited { success }) => if success {
            CloneStage::Finished { failure: None }
        } else {
            CloneStage::Finished { failure: Some(CloneError::CloneFailed) }
        },
        _ => stage,
    }
}

/// The outcome that a failure (or none) stands for.
pub open spec fn outcome_of(failure: Option<CloneError>) -> Result<(), CloneError> {
    match failure {
        Some(e) => Err(e),
        None => Ok(()),
    }
}

/// The action that the flow's stage calls for.
pub open spec fn clone_action(flow: CloneFlow) -> CloneAction {
    match flow.stage {
        CloneStage::InspectingTarget => CloneAction::InspectTarget,
        CloneStage::CheckingGit => CloneAction::CheckGit,
        CloneStage::CloningBranch => CloneAction::Clone {
            url: flow.url,
            branch: Some(flow.branch),
            announce: flow.announce,
        },
        CloneStage::RemovingTarget => CloneAction::RemoveTarget,
        CloneStage::CloningDefault => CloneAction::Clone { url: flow.url, branch: None, announce: false },
        CloneStage::Finished { failure } => CloneAction::Finish(outcome_of(failure)),
    }
}

impl CloneFlow {
    /// Starts the clone of `template` through `mirror`; the first action is
    /// to inspect the target directory.
    pub fn new(template: &Template, mirror: &Option<String>) -> (r: (CloneFlow, CloneAction))
        ensures
            r.0.stage == CloneStage::InspectingTarget,
            r.0.url@ == mirrored_url(template.repository@, option_text(*mirror)),
            r.0.branch == template.branch,
            r.0.announce == mirror is Some,
            r.1 == clone_action(r.0),
    {
        let url = crate::config::apply_mirror(template.repository.as_str(), mirror);
        let flow = CloneFlow {
            stage: CloneStage::InspectingTarget,
            url,
            branch: template.branch.clone(),
            announce: mirror.is_some(),
        };
        (flow, CloneAction::InspectTarget)
    }

    /// The action that the current stage calls for.
    pub fn action(&self) -> (a: CloneAction)
        ensures
            a == clone_action(*self),
    {
        match self.stage {
            CloneStage::InspectingTarget => CloneAction::InspectTarget,
            CloneStage::CheckingGit => CloneAction::CheckGit,
            CloneStage::CloningBranch => CloneAction::Clone {
                url: self.url.clone(),
                branch: Some(self.branch.clone()),
                announce: self.announce,
            },
            CloneStage::RemovingTarget => CloneAction::RemoveTarget,
            CloneStage::CloningDefault => CloneAction::Clone {
                url: self.url.clone(),
                branch: None,
                announce: false,
            },
            CloneStage::Finished { failure } => CloneAction::Finish(
                match failure {
                    Some(e) => Err(e),
                    None => Ok(()),
                },
            ),
        }
    }

    /// Takes in what the last action gave and tells the next action.
    pub fn step(&mut self, event: CloneEvent) -> (a: CloneAction)
        ensures
            final(self).stage == clone_transition(old(self).stage, event),
            final(self).url == old(self).url,
            final(self).branch == old(self).branch,
            final(self).announce == old(self).announce,
            a == clone_action(*final(self)),
    {
        let next = match (self.stage, event) {
            (CloneStage::InspectingTarget, CloneEvent::TargetInspected { nonempty }) => {
                if nonempty {
                    CloneStage::Finished { failure: Some(CloneError::TargetNotEmpty) }
                } else {
                    CloneStage::CheckingGit
                }
            },
            (CloneStage::CheckingGit, CloneEvent::GitChecked { found }) => {
                if found {
                    CloneStage::CloningBranch
                } else {
                    CloneStage::Finished { failure: Some(CloneError::GitMissing) }
                }
            },
            (CloneStage::CloningBranch, CloneEvent::CloneExited { success }) => {
                if success {
                    CloneStage::Finished { failure: None }
                } else {
                    CloneStage::RemovingTarget
                }
            },
            (CloneStage::RemovingTarget, CloneEvent::TargetRemoved) => CloneStage::CloningDefault,
            (CloneStage::CloningDefault, CloneEvent::CloneExited { success }) => {
                if success {
                    CloneStage::Finished { failure: None }
                } else {
                    CloneStage::Finished { failure: Some(CloneError::CloneFailed) }
                }
            },
            _ => self.stage,
        };
        self.stage = next;
        self.action()
    }
}

/// The stage reached from `stage` after the events `events`, in order.
pub open spec fn clone_run(stage: CloneStage, events: Seq<CloneEvent>) -> CloneStage
    decreases events.len(),
{
    if events.len() == 0 {
        stage
    } else {
        clone_run(clone_transition(stage, events[0]), events.drop_first())
    }
}

/// A finished clone stays finished, with its outcome.
pub proof fn lemma_clone_finished_stays(failure: Option<CloneError>, events: Seq<CloneEvent>)
    ensures
        clone_run(CloneStage::Finished { failure }, events) == (CloneStage::Finished { failure }),
    decreases events.len(),
{
    if events.len() > 0 {
        lemma_clone_finished_stays(failure, events.drop_first());
    }
}

/// The stages in which a clone has been (or is being) attempted, or has succeeded.
pub open spec fn clone_started(stage: CloneStage) -> bool {
    ||| stage == CloneStage::CloningBranch
    ||| stage == CloneStage::RemovingTarget
    ||| stage == CloneStage::CloningDefault
    ||| stage == (CloneStage::Finished { failure: None })
    ||| stage == (CloneStage::Finished { failure: Some(CloneError::CloneFailed) })
}

proof fn lemma_clone_needs_git(stage: CloneStage, events: Seq<CloneEvent>)
    requires
        stage == CloneStage::InspectingTarget || stage == CloneStage::CheckingGit,
        clone_started(clone_run(stage, events)),
    ensures
        events.contains(CloneEvent::GitChecked { found: true }),
    decreases events.len(),
{
    if events.len() > 0 {
        let next = clone_transition(stage, events[0]);
        let rest = events.drop_first();
        if events[0] == (CloneEvent::GitChecked { found: true }) {
            assert(events[0] == CloneEvent::GitChecked { found: true });
        } else if next == stage || next == CloneStage::CheckingGit {
            lemma_clone_needs_git(next, rest);
            let j = choose|j: int| 0 <= j < rest.len() && rest[j] == CloneEvent::GitChecked { found: true };
            assert(events[j + 1] == rest[j]);
        } else {
            match next {
                CloneStage::Finished { failure } => lemma_clone_finished_stays(failure, rest),
                _ => {},
            }
        }
    }
}

proof fn lemma_clone_needs_empty_target(events: Seq<CloneEvent>)
    requires
        clone_started(clone_run(CloneStage::InspectingTarget, events)),
    ensures
        events.contains(CloneEvent::TargetInspected { nonempty: false }),
    decreases events.len(),
{
    if events.len() > 0 {
        let next = clone_transition(CloneStage::InspectingTarget, events[0]);
        let rest = events.drop_first();
        if events[0] == (CloneEvent::TargetInspected { nonempty: false }) {
            assert(events[0] == CloneEvent::TargetInspected { nonempty: false });
        } else if next == CloneStage::InspectingTarget {
            lemma_clone_needs_empty_target(rest);
            let j = choose|j: int|
                0 <= j < rest.len() && rest[j] == CloneEvent::TargetInspected { nonempty: false };
            assert(events[j + 1] == rest[j]);
        } else {
            match next {
                CloneStage::Finished { failure } => lemma_clone_finished_stays(failure, rest),
                _ => {},
            }
        }
    }
}

/// Nothing is cloned unless the target directory was found empty (or
/// absent) and `git` was found: every run of a clone that gets as far as a
/// clone attempt has had both answers.
pub proof fn lemma_clone_only_after_checks(events: Seq<CloneEvent>)
    requires
        clone_started(clone_run(CloneStage::InspectingTarget, events)),
    ensures
        events.contains(CloneEvent::TargetInspected { nonempty: false }),
        events.contains(CloneEvent::GitChecked { found: true }),
{
    lemma_clone_needs_empty_target(events);
    lemma_clone_needs_git(CloneStage::InspectingTarget, events);
}

/// The stages in which the default branch is being or has been cloned.
pub open spec fn default_branch_tried(stage: CloneStage) -> bool {
    ||| stage == CloneStage::CloningDefault
    ||| stage == (CloneStage::Finished { failure: Some(CloneError::CloneFailed) })
}

/// The stages from which the default branch is tried only after a removal.
pub open spec fn before_removal(stage: CloneStage) -> bool {
    ||| stage == CloneStage::InspectingTarget
    ||| stage == CloneStage::CheckingGit
    ||| stage == CloneStage::CloningBranch
    ||| stage == CloneStage::RemovingTarget
}

proof fn lemma_default_needs_removal(stage: CloneStage, events: Seq<CloneEvent>)
    requires
        before_removal(stage),
        default_branch_tried(clone_run(stage, events)),
    ensures
        events.contains(CloneEvent::TargetRemoved),
    decreases events.len(),
{
    if events.len() > 0 {
        let next = clone_transition(stage, events[0]);
        let rest = events.drop_first();
        if events[0] == CloneEvent::TargetRemoved {
            assert(events[0] == CloneEvent::TargetRemoved);
        } else if before_removal(next) {
            lemma_default_needs_removal(next, rest);
            let j = choose|j: int| 0 <= j < rest.len() && rest[j] == CloneEvent::TargetRemoved;
            assert(events[j + 1] == rest[j]);
        } else {
            match next {
                CloneStage::Finished { failure } => lemma_clone_finished_stays(failure, rest),
                _ => {},
            }
        }
    }
}

/// The stages from which the default branch is tried only after the branch failed.
pub open spec fn before_branch_failed(stage: CloneStage) -> bool {
    ||| stage == CloneStage::InspectingTarget
    ||| stage == CloneStage::CheckingGit
    ||| stage == CloneStage::CloningBranch
}

proof fn lemma_default_needs_branch_failure(stage: CloneStage, events: Seq<CloneEvent>)
    requires
        before_branch_failed(stage),
        default_branch_tried(clone_run(stage, events)),
    ensures
        events.contains(CloneEvent::CloneExited { success: false }),
    decreases events.len(),
{
    if events.len() > 0 {
        let next = clone_transition(stage, events[0]);
        let rest = events.drop_first();
        if events[0] == (CloneEvent::CloneExited { success: false }) {
            assert(events[0] == CloneEvent::CloneExited { success: false });
        } else if before_branch_failed(next) {
            lemma_default_needs_branch_failure(next, rest);
            let j = choose|j: int| 0 <= j < rest.len() && rest[j] == CloneEvent::CloneExited { success: false };
            assert(events[j + 1] == rest[j]);
        } else {
            match next {
                CloneStage::Finished { failure } => lemma_clone_finished_stays(failure, rest),
                _ => {},
            }
        }
    }
}

/// The default branch is tried only after the clone of the template's
/// branch failed and the target directory was cleaned up.
pub proof fn lemma_default_branch_is_a_fallback(events: Seq<CloneEvent>)
    requires
        default_branch_tried(clone_run(CloneStage::InspectingTarget, events)),
    ensures
        events.contains(CloneEvent::CloneExited { success: false }),
        events.contains(CloneEvent::TargetRemoved),
{
    lemma_default_needs_branch_failure(CloneStage::InspectingTarget, events);
    lemma_default_needs_removal(CloneStage::InspectingTarget, events);
}

/// Every clone asks for the flow's (mirrored) URL. Only the first attempt
/// names a branch, the template's own, and announces the mirror, exactly when
/// one is in use; the retry after a failure clones the repository's default
/// branch (no branch named) and announces nothing.
pub proof fn lemma_clone_attempts(flow: CloneFlow)
    ensures
        clone_action(flow) matches CloneAction::Clone { url, .. } ==> url == flow.url,
        clone_action(flow) matches CloneAction::Clone { branch: Some(b), .. } ==> b == flow.branch
            && flow.stage == CloneStage::CloningBranch,
        clone_action(flow) matches CloneAction::Clone { announce, .. } ==> (announce <==> (
        flow.announce && flow.stage == CloneStage::CloningBranch)),
        flow.stage == CloneStage::CloningBranch ==> clone_action(flow) matches CloneAction::Clone {
            branch: Some(_),
            ..
        },
        flow.stage == CloneStage::CloningDefault ==> clone_action(flow) matches CloneAction::Clone {
            branch: None,
            ..
        },
{
}

// ─── Post-processing ───

/// Where the preparation of a freshly cloned project stands.
#[derive(Debug)]
pub enum PostStage {
    RemovingGitDir,
    ReadingPackageJson,
    WritingPackageJson { content: String },
    InitializingGit,
    StagingFiles { warn_init_failed: bool },
    Committing,
    Finished { failure: Option<PackageJsonError> },
}

/// What the caller is to do next while preparing the project.
#[derive(Debug)]
pub enum PostAction {
    /// Remove the `.git` directory of the target if it exists.
    RemoveGitDir,
    /// Read `package.json` of the target if it exists.
    ReadPackageJson,
    /// Write this text to `package.json` of the target.
    WritePackageJson(String),
    /// Run `git init` in the target.
    RunGitInit,
    /// Warn first when `git init` failed, then run `git add .` in the target.
    RunGitAdd { warn_init_failed: bool },
    /// Run `git commit -m "init from baiban template"` in the target.
    RunGitCommit,
    /// The preparation is over, with this outcome.
    Finish(Result<(), PackageJsonError>),
}

/// What the caller reports back after doing a [`PostAction`].
#[derive(Debug)]
pub enum PostEvent {
    GitDirRemoved,
    /// The content of `package.json`, or `None` when there is none.
    PackageJsonRead(Option<String>),
    PackageJsonWritten,
    GitInitExited { success: bool },
    /// Whether `git add` ran and succeeded.
    GitAddExited { success: bool },
    GitCommitExited,
}

/// The preparation of one project.
#[derive(Debug)]
pub struct PostFlow {
    pub stage: PostStage,
    pub project_name: String,
}

/// The stage that follows `stage` on `event`, for every pair but a manifest
/// that was read (whose rewriting decides); an event that does not answer
/// the stage's action leaves the stage as it is.
pub open spec fn post_transition(stage: PostStage, event: PostEvent) -> PostStage {
    match (stage, event) {
        (PostStage::RemovingGitDir, PostEvent::GitDirRemoved) => PostStage::ReadingPackageJson,
        (PostStage::ReadingPackageJson, PostEvent::PackageJsonRead(None)) => PostStage::InitializingGit,
        (PostStage::WritingPackageJson { .. }, PostEvent::PackageJsonWritten) => PostStage::InitializingGit,
        (PostStage::InitializingGit, PostEvent::GitInitExited { success }) => PostStage::StagingFiles {
            warn_init_failed: !success,
        },
        (PostStage::StagingFiles { .. }, PostEvent::GitAddExited { success }) => if success {
            PostStage::Committing
        } else {
            PostStage::Finished { failure: None }
        },
        (PostStage::Committing, PostEvent::GitCommitExited) => PostStage::Finished { failure: None },
        _ => stage,
    }
}

/// The action that the flow's stage calls for.
pub open spec fn post_action(flow: PostFlow) -> PostAction {
    match flow.stage {
        PostStage::RemovingGitDir => PostAction::RemoveGitDir,
        PostStage::ReadingPackageJson => PostAction::ReadPackageJson,
        PostStage::WritingPackageJson { content } => PostAction::WritePackageJson(content),
        PostStage::InitializingGit => PostAction::RunGitInit,
        PostStage::StagingFiles { warn_init_failed } => PostAction::RunGitAdd { warn_init_failed },
        PostStage::Committing => PostAction::RunGitCommit,
        PostStage::Finished { failure } => PostAction::Finish(
            match failure {
                Some(e) => Err(e),
                None => Ok(()),
            },
        ),
    }
}

impl PostFlow {
    /// Starts preparing the project `project_name`; the first action is to
    /// remove the template's `.git` directory.
    pub fn new(project_name: &str) -> (r: (PostFlow, PostAction))
        ensures
            r.0.stage == PostStage::RemovingGitDir,
            r.0.project_name@ == project_name@,
            r.1 == post_action(r.0),
    {
        (
            PostFlow { stage: PostStage::RemovingGitDir, project_name: project_name.to_owned() },
            PostAction::RemoveGitDir,
        )
    }

    /// The action that the current stage calls for.
    pub fn action(&self) -> (a: PostAction)
        ensures
            a == post_action(*self),
    {
        match &self.stage {
            PostStage::RemovingGitDir => PostAction::RemoveGitDir,
            PostStage::ReadingPackageJson => PostAction::ReadPackageJson,
            PostStage::WritingPackageJson { content } => PostAction::WritePackageJson(content.clone()),
            PostStage::InitializingGit => PostAction::RunGitInit,
            PostStage::StagingFiles { warn_init_failed } => PostAction::RunGitAdd {
                warn_init_failed: *warn_init_failed,
            },
            PostStage::Committing => PostAction::RunGitCommit,
            PostStage::Finished { failure } => PostAction::Finish(
                match failure {
                    Some(e) => Err(*e),
                    None => Ok(()),
                },
            ),
        }
    }

    /// Takes in what the last action gave and tells the next action. A
    /// manifest that was read is rewritten with the project's name (see
    /// [`rename_package`]): the flow then writes the new text, or ends with
    /// an error when the manifest is not JSON.
    pub fn step(&mut self, event: PostEvent) -> (a: PostAction)
        ensures
            final(self).project_name == old(self).project_name,
            a == post_action(*final(self)),
            match (old(self).stage, event) {
                (PostStage::ReadingPackageJson, PostEvent::PackageJsonRead(Some(c))) => {
                    match renamed_manifest(c@, old(self).project_name@) {
                        Some(t) => final(self).stage matches PostStage::WritingPackageJson {
                            content,
                        } && content@ == t,
                        None => final(self).stage == PostStage::Finished {
                            failure: Some(PackageJsonError::Parse),
                        },
                    }
                },
                _ => final(self).stage == post_transition(old(self).stage, event),
            },
    {
        let mut stage = PostStage::Finished { failure: None };
        std::mem::swap(&mut stage, &mut self.stage);
        let next = match (stage, event) {
            (PostStage::RemovingGitDir, PostEvent::GitDirRemoved) => PostStage::ReadingPackageJson,
            (PostStage::ReadingPackageJson, PostEvent::PackageJsonRead(None)) => PostStage::InitializingGit,
            (PostStage::ReadingPackageJson, PostEvent::PackageJsonRead(Some(c))) => {
                match rename_package(c.as_str(), self.project_name.as_str()) {
                    Ok(content) => PostStage::WritingPackageJson { content },
                    Err(e) => PostStage::Finished { failure: Some(e) },
                }
            },
            (PostStage::WritingPackageJson { .. }, PostEvent::PackageJsonWritten) => PostStage::InitializingGit,
            (PostStage::InitializingGit, PostEvent::GitInitExited { success }) => PostStage::StagingFiles {
                warn_init_failed: !success,
            },
            (PostStage::StagingFiles { .. }, PostEvent::GitAddExited { success }) => {
                if success {
                    PostStage::Committing
                } else {
                    PostStage::Finished { failure: None }
                }
            },
            (PostStage::Committing, PostEvent::GitCommitExited) => PostStage::Finished { failure: None },
            (stage, _) => stage,
        };
        self.stage = next;
        self.action()
    }
}

} // verus!
