//! Getting and building the SymCC fork that the concolic tracer needs.
//!
//! The library runs no program itself. It says which step comes next and
//! what a step's outcome leads to; the caller runs `git` and `cmake` and
//! reports back. Directories are handed through as the caller gave them: the
//! library never looks into a path, so their type `P` is the caller's choice.

use vstd::prelude::*;

verus! {

/// The URL of the SymCC fork.
pub const SYMCC_REPO_URL: &'static str = "https://github.com/AFLplusplus/symcc.git";

/// The commit of the SymCC fork.
pub const SYMCC_REPO_COMMIT: &'static str = "d3870f3f6e4b8d1c01516e76537547d980b3cbed";

/// How the step that the caller was asked to take ended.
#[derive(Clone, Copy, Debug, PartialEq, Eq, Structural)]
pub enum Outcome {
    /// The program was found, or ran and reported success.
    Succeeded,
    /// The program was not found, or ran and reported failure.
    Failed,
    /// The program could not be started.
    NotRun,
}

/// Why a checkout was given up.
#[derive(Clone, Copy, Debug, PartialEq, Eq, Structural)]
pub enum CloneFailure {
    /// `git` is not installed.
    GitMissing,
    /// `git clone` could not be started.
    CloneNotRun,
    /// `git clone` failed.
    CloneFailed,
    /// `git checkout` could not be started.
    CheckoutNotRun,
    /// `git checkout` failed.
    CheckoutFailed,
}

/// How far a checkout has come.
#[derive(Clone, Copy, Debug, PartialEq, Eq, Structural)]
pub enum CloneStage {
    /// Nothing was done yet: `git` has to be looked for.
    LocateGit,
    /// `git` is there: the repository has to be cloned.
    Clone,
    /// The repository is cloned: the commit has to be checked out.
    Checkout,
    /// The commit is checked out.
    Done,
    /// The checkout was given up.
    Failed(CloneFailure),
}

/// What the caller is to do next.
#[derive(Debug)]
pub enum CloneAction<'a, P> {
    /// Look for `git` on the search path.
    LocateGit,
    /// Run `git clone <url> <path>`.
    Clone { url: &'a str, path: &'a P },
    /// Run `git checkout <commit>` with `path` as the working directory.
    Checkout { commit: &'a str, path: &'a P },
    /// Nothing: the checkout is complete.
    Finish,
    /// Report the failure and stop.
    GiveUp(CloneFailure),
}

/// The stage that follows `stage` when its step ended with `outcome`. A
/// checkout that is done or was given up stays where it is.
pub open spec fn next_stage(stage: CloneStage, outcome: Outcome) -> CloneStage {
    match stage {
        CloneStage::LocateGit => match outcome {
            Outcome::Succeeded => CloneStage::Clone,
            _ => CloneStage::Failed(CloneFailure::GitMissing),
        },
        CloneStage::Clone => match outcome {
            Outcome::Succeeded => CloneStage::Checkout,
            Outcome::Failed => CloneStage::Failed(CloneFailure::CloneFailed),
            Outcome::NotRun => CloneStage::Failed(CloneFailure::CloneNotRun),
        },
        CloneStage::Checkout => match outcome {
            Outcome::Succeeded => CloneStage::Done,
            Outcome::Failed => CloneStage::Failed(CloneFailure::CheckoutFailed),
            Outcome::NotRun => CloneStage::Failed(CloneFailure::CheckoutNotRun),
        },
        CloneStage::Done => CloneStage::Done,
        CloneStage::Failed(why) => CloneStage::Failed(why),
    }
}

/// A checkout of one commit of one repository into one directory.
#[derive(Debug)]
pub struct CloneJob<'a, P> {
    path: P,
    url: &'a str,
    commit: &'a str,
    stage: CloneStage,
}

impl<'a, P> CloneJob<'a, P> {
    /// The directory to check out into.
    pub closed spec fn spec_path(&self) -> P {
        self.path
    }

    /// The URL of the repository.
    pub closed spec fn spec_url(&self) -> Seq<char> {
        self.url@
    }

    /// The commit to check out.
    pub closed spec fn spec_commit(&self) -> Seq<char> {
        self.commit@
    }

    /// How far the checkout has come.
    pub closed spec fn spec_stage(&self) -> CloneStage {
        self.stage
    }

    /// How far the checkout has come.
    pub fn stage(&self) -> (stage: CloneStage)
        ensures
            stage == self.spec_stage(),
    {
        self.stage
    }

    /// The step that the caller is to take now.
    pub fn action<'b>(&'b self) -> (step: CloneAction<'b, P>)
        ensures
            match self.spec_stage() {
                CloneStage::LocateGit => step is LocateGit,
                CloneStage::Clone => step matches CloneAction::Clone { url, path } && url@
                    == self.spec_url() && *path == self.spec_path(),
                CloneStage::Checkout => step matches CloneAction::Checkout { commit, path }
                    && commit@ == self.spec_commit() && *path == self.spec_path(),
                CloneStage::Done => step is Finish,
                CloneStage::Failed(why) => step matches CloneAction::GiveUp(w) && w == why,
            },
    {
        match self.stage {
            CloneStage::LocateGit => CloneAction::LocateGit,
            CloneStage::Clone => CloneAction::Clone { url: self.url, path: &self.path },
            CloneStage::Checkout => CloneAction::Checkout { commit: self.commit, path: &self.path },
            CloneStage::Done => CloneAction::Finish,
            CloneStage::Failed(why) => CloneAction::GiveUp(why),
        }
    }

    /// Takes note of how the step ended and moves on to the next stage.
    pub fn advance(&mut self, outcome: Outcome)
        ensures
            final(self).spec_stage() == next_stage(old(self).spec_stage(), outcome),
            final(self).spec_path() == old(self).spec_path(),
            final(self).spec_url() == old(self).spec_url(),
            final(self).spec_commit() == old(self).spec_commit(),
    {
        self.stage = match self.stage {
            CloneStage::LocateGit => match outcome {
                Outcome::Succeeded => CloneStage::Clone,
                _ => CloneStage::Failed(CloneFailure::GitMissing),
            },
            CloneStage::Clone => match outcome {
                Outcome::Succeeded => CloneStage::Checkout,
                Outcome::Failed => CloneStage::Failed(CloneFailure::CloneFailed),
                Outcome::NotRun => CloneStage::Failed(CloneFailure::CloneNotRun),
            },
            CloneStage::Checkout => match outcome {
                Outcome::Succeeded => CloneStage::Done,
                Outcome::Failed => CloneStage::Failed(CloneFailure::CheckoutFailed),
                Outcome::NotRun => CloneStage::Failed(CloneFailure::CheckoutNotRun),
            },
            CloneStage::Done => CloneStage::Done,
            CloneStage::Failed(why) => CloneStage::Failed(why),
        };
    }
}

impl CloneFailure {
    /// Tells whether `git` ran and left an error report of its own, which
    /// belongs after the message: it did where a command failed, it did not
    /// where `git` is missing or could not be started.
    pub fn has_report(&self) -> (b: bool)
        ensures
            b == (*self == CloneFailure::CloneFailed || *self == CloneFailure::CheckoutFailed),
    {
        match self {
            CloneFailure::CloneFailed => true,
            CloneFailure::CheckoutFailed => true,
            _ => false,
        }
    }

    /// What to tell the user.
    pub fn message(&self) -> (text: &'static str)
        ensures
            text@ == match *self {
                CloneFailure::GitMissing => "ERROR: unable to find git. Git is required to download SymCC."@,
                CloneFailure::CloneNotRun => "failed to execute git clone"@,
                CloneFailure::CloneFailed => "failed to clone symcc git repository:"@,
                CloneFailure::CheckoutNotRun => "failed to execute git checkout"@,
                CloneFailure::CheckoutFailed => "failed to checkout symcc git repository commit:"@,
            },
    {
        match self {
            CloneFailure::GitMissing => "ERROR: unable to find git. Git is required to download SymCC.",
            CloneFailure::CloneNotRun => "failed to execute git clone",
            CloneFailure::CloneFailed => "failed to clone symcc git repository:",
            CloneFailure::CheckoutNotRun => "failed to execute git checkout",
            CloneFailure::CheckoutFailed => "failed to checkout symcc git repository commit:",
        }
    }
}

/// Starts a checkout of `commit` of the repository at `url` into `path`.
pub fn clone_symcc_at_version<'a, P>(path: P, url: &'a str, commit: &'a str) -> (job: CloneJob<'a, P>)
    ensures
        job.spec_path() == path,
        job.spec_url() == url@,
        job.spec_commit() == commit@,
        job.spec_stage() == CloneStage::LocateGit,
{
    CloneJob { path, url, commit, stage: CloneStage::LocateGit }
}

/// Starts a checkout of the SymCC fork, at the commit that this library is made for, into `path`.
pub fn clone_symcc<P>(path: P) -> (job: CloneJob<'static, P>)
    ensures
        job.spec_path() == path,
        job.spec_url() == SYMCC_REPO_URL@,
        job.spec_commit() == SYMCC_REPO_COMMIT@,
        job.spec_stage() == CloneStage::LocateGit,
{
    clone_symcc_at_version(path, SYMCC_REPO_URL, SYMCC_REPO_COMMIT)
}

/// How `cmake` is to be run on the sources of SymCC.
#[derive(Debug)]
pub struct BuildPlan<P> {
    /// The directory of the sources.
    pub source: P,
    /// The one variable to define, with its value.
    pub define: (&'static str, &'static str),
    /// Whether to configure only and build no target.
    pub no_build_target: bool,
    /// The directory, below the one that `cmake` reports, that holds what was built.
    pub artifact_dir: &'static str,
}

/// The plan for building SymCC from the sources at `path`: trust the Z3 of
/// the system, build no target, and find the artifacts under `build`.
pub fn build_symcc<P>(path: P) -> (plan: BuildPlan<P>)
    ensures
        plan.source == path,
        plan.define.0@ == "Z3_TRUST_SYSTEM_VERSION"@,
        plan.define.1@ == "ON"@,
        plan.no_build_target,
        plan.artifact_dir@ == "build"@,
{
    BuildPlan {
        source: path,
        define: ("Z3_TRUST_SYSTEM_VERSION", "ON"),
        no_build_target: true,
        artifact_dir: "build",
    }
}

} // verus!
