//! What can go wrong, each kind with the text that explains it.
use vstd::prelude::*;

verus! {

broadcast use vstd::string::group_string_axioms;

pub enum AgentError {
    /// No repository encloses the working directory.
    NotARepository(String),
    /// A git command failed; git's own diagnostic.
    GitCommandFailed(String),
    WorktreeCreateFailed(String),
    WorktreeRemoveFailed(String),
    BranchDeleteFailed(String),
    MergeFailed(String),
    /// The repository root has no parent directory to hold worktrees.
    NoParentDirectory(String),
    AgentLaunchFailed(String),
    AgentNonZeroExit(String),
    EditorFailed(String),
    ReviewToolFailed(String),
    /// A `.git` file that is not a `gitdir: <path>` pointer: the file's path
    /// and its trimmed content.
    InvalidGitDirPointer(String, String),
    /// The rendered template of an earlier run is not in the worktree.
    CachedTemplateMissing(String),
    /// No template to choose from: an abort, not a failure.
    NoTemplateAvailable,
}

/// `head: detail`.
pub open spec fn with_detail(head: Seq<char>, detail: Seq<char>) -> Seq<char> {
    head + ": "@ + detail
}

/// The one-line description of an error.
pub open spec fn error_text(e: AgentError) -> Seq<char> {
    match e {
        AgentError::NotARepository(d) => with_detail("not inside a git repository"@, d@),
        AgentError::GitCommandFailed(d) => with_detail("git command failed"@, d@),
        AgentError::WorktreeCreateFailed(d) => with_detail("unable to create the worktree"@, d@),
        AgentError::WorktreeRemoveFailed(d) => with_detail("unable to remove the worktree"@, d@),
        AgentError::BranchDeleteFailed(d) => with_detail("unable to delete the branch"@, d@),
        AgentError::MergeFailed(d) => with_detail("merge failed"@, d@),
        AgentError::NoParentDirectory(d) => with_detail("the repository has no parent directory"@, d@),
        AgentError::AgentLaunchFailed(d) => with_detail("unable to launch the agent"@, d@),
        AgentError::AgentNonZeroExit(d) => with_detail("the agent exited with a non zero status"@, d@),
        AgentError::EditorFailed(d) => with_detail("the editor failed"@, d@),
        AgentError::ReviewToolFailed(d) => with_detail("the review tool failed"@, d@),
        AgentError::InvalidGitDirPointer(p, c) => with_detail(with_detail("invalid gitdir pointer"@, p@), c@),
        AgentError::CachedTemplateMissing(d) => with_detail("cached template not found"@, d@),
        AgentError::NoTemplateAvailable => "no template available"@,
    }
}

fn join_detail(head: &str, detail: &str) -> (r: String)
    ensures
        r@ == with_detail(head@, detail@),
{
    let mut r = String::from_str(head);
    r.append(": ");
    r.append(detail);
    r
}

impl AgentError {
    /// A one-line description for the user.
    pub fn message(&self) -> (r: String)
        ensures
            r@ == error_text(*self),
    {
        match self {
            AgentError::NotARepository(d) => join_detail("not inside a git repository", d.as_str()),
            AgentError::GitCommandFailed(d) => join_detail("git command failed", d.as_str()),
            AgentError::WorktreeCreateFailed(d) => join_detail("unable to create the worktree", d.as_str()),
            AgentError::WorktreeRemoveFailed(d) => join_detail("unable to remove the worktree", d.as_str()),
            AgentError::BranchDeleteFailed(d) => join_detail("unable to delete the branch", d.as_str()),
            AgentError::MergeFailed(d) => join_detail("merge failed", d.as_str()),
            AgentError::NoParentDirectory(d) => join_detail("the repository has no parent directory", d.as_str()),
            AgentError::AgentLaunchFailed(d) => join_detail("unable to launch the agent", d.as_str()),
            AgentError::AgentNonZeroExit(d) => join_detail("the agent exited with a non zero status", d.as_str()),
            AgentError::EditorFailed(d) => join_detail("the editor failed", d.as_str()),
            AgentError::ReviewToolFailed(d) => join_detail("the review tool failed", d.as_str()),
            AgentError::InvalidGitDirPointer(p, c) => {
                let head = join_detail("invalid gitdir pointer", p.as_str());
                join_detail(head.as_str(), c.as_str())
            },
            AgentError::CachedTemplateMissing(d) => join_detail("cached template not found", d.as_str()),
            AgentError::NoTemplateAvailable => String::from_str("no template available"),
        }
    }
}

/// A program the workflow starts and waits for.
#[derive(PartialEq, Eq, Structural, Clone, Copy)]
pub enum Program {
    Agent,
    Editor,
    ReviewTool,
}

/// How starting a program went.
pub enum ProgramRun {
    /// It could not be started; why.
    NotStarted(String),
    /// It ran; whether its exit status was zero, and that status.
    Exited(bool, String),
}

/// The result of running a program: success on a zero exit status. For the
/// agent, a failed start is `AgentLaunchFailed` and a non-zero exit
/// `AgentNonZeroExit`; the editor and the review tool fail with their own
/// kind either way.
pub fn program_result(program: Program, run: ProgramRun) -> (r: Result<(), AgentError>)
    ensures
        match run {
            ProgramRun::Exited(true, _) => r is Ok,
            ProgramRun::NotStarted(d) => match program {
                Program::Agent => r matches Err(AgentError::AgentLaunchFailed(m)) && m@ == d@,
                Program::Editor => r matches Err(AgentError::EditorFailed(m)) && m@ == d@,
                Program::ReviewTool => r matches Err(AgentError::ReviewToolFailed(m)) && m@ == d@,
            },
            ProgramRun::Exited(false, s) => match program {
                Program::Agent => r matches Err(AgentError::AgentNonZeroExit(m)) && m@ == s@,
                Program::Editor => r matches Err(AgentError::EditorFailed(m)) && m@ == s@,
                Program::ReviewTool => r matches Err(AgentError::ReviewToolFailed(m)) && m@ == s@,
            },
        },
{
    match run {
        ProgramRun::Exited(true, _) => Ok(()),
        ProgramRun::NotStarted(d) => Err(
            match program {
                Program::Agent => AgentError::AgentLaunchFailed(d),
                Program::Editor => AgentError::EditorFailed(d),
                Program::ReviewTool => AgentError::ReviewToolFailed(d),
            },
        ),
        ProgramRun::Exited(false, s) => Err(
            match program {
                Program::Agent => AgentError::AgentNonZeroExit(s),
                Program::Editor => AgentError::EditorFailed(s),
                Program::ReviewTool => AgentError::ReviewToolFailed(s),
            },
        ),
    }
}

} // verus!
