//! The git commands behind each repository operation, and what their exit
//! status means. Each runs with the repository root as working directory.
use vstd::prelude::*;

use crate::error::AgentError;
use crate::git::{GitOutput, GitRepo};
use crate::text::{same_text, string_views};

verus! {

broadcast use vstd::string::group_string_axioms;

/// The operation a command performs, which decides the error it reports.
#[derive(PartialEq, Eq, Structural, Clone, Copy)]
pub enum GitOp {
    CreateWorktree,
    RemoveWorktree,
    DeleteBranch,
    Checkout,
    Merge,
}

/// A git invocation: the arguments after `git`.
pub struct GitCommand {
    pub op: GitOp,
    pub args: Vec<String>,
}

impl GitCommand {
    /// Success when git exited with status zero; otherwise the error of the
    /// operation, carrying git's diagnostic.
    pub fn outcome(&self, out: &GitOutput) -> (r: Result<(), AgentError>)
        ensures
            out.success <==> r is Ok,
            !out.success ==> match (self.op, r) {
                (GitOp::CreateWorktree, Err(AgentError::WorktreeCreateFailed(d))) => d@ == out.stderr@,
                (GitOp::RemoveWorktree, Err(AgentError::WorktreeRemoveFailed(d))) => d@ == out.stderr@,
                (GitOp::DeleteBranch, Err(AgentError::BranchDeleteFailed(d))) => d@ == out.stderr@,
                (GitOp::Checkout, Err(AgentError::GitCommandFailed(d))) => d@ == out.stderr@,
                (GitOp::Merge, Err(AgentError::MergeFailed(d))) => d@ == out.stderr@,
                _ => false,
            },
    {
        if out.success {
            return Ok(());
        }
        let d = out.stderr.clone();
        Err(
            match self.op {
                GitOp::CreateWorktree => AgentError::WorktreeCreateFailed(d),
                GitOp::RemoveWorktree => AgentError::WorktreeRemoveFailed(d),
                GitOp::DeleteBranch => AgentError::BranchDeleteFailed(d),
                GitOp::Checkout => AgentError::GitCommandFailed(d),
                GitOp::Merge => AgentError::MergeFailed(d),
            },
        )
    }
}

fn strings(parts: &Vec<&str>) -> (r: Vec<String>)
    ensures
        r@.len() == parts@.len(),
        forall|i: int| 0 <= i < r@.len() ==> #[trigger] r@[i]@ == parts@[i]@,
{
    let mut r: Vec<String> = Vec::new();
    let mut i: usize = 0;
    while i < parts.len()
        invariant
            i <= parts@.len(),
            r@.len() == i,
            forall|j: int| 0 <= j < i ==> #[trigger] r@[j]@ == parts@[j]@,
        decreases parts.len() - i,
    {
        r.push(String::from_str(parts[i]));
        i = i + 1;
    }
    r
}

/// Switches to the target branch, merges, and switches back: the first
/// step only when another branch (or none) is checked out, the last only
/// when that was a named branch.
pub struct MergePlan {
    pub switch_to_target: Option<GitCommand>,
    pub merge: GitCommand,
    pub switch_back: Option<GitCommand>,
}

pub open spec fn is_command(c: GitCommand, op: GitOp, args: Seq<Seq<char>>) -> bool {
    c.op == op && string_views(c.args@) == args
}

impl GitRepo {
    /// `git worktree add -b <branch> <target_dir> <base_branch>`: a new
    /// branch from the base, checked out in a new directory.
    pub fn create_worktree(&self, branch_name: &str, target_dir: &str, base_branch: &str) -> (r: GitCommand)
        ensures
            is_command(r, GitOp::CreateWorktree, seq!["worktree"@, "add"@, "-b"@, branch_name@, target_dir@, base_branch@]),
    {
        let args = strings(&vec!["worktree", "add", "-b", branch_name, target_dir, base_branch]);
        let r = GitCommand { op: GitOp::CreateWorktree, args };
        assert(string_views(r.args@) =~= seq!["worktree"@, "add"@, "-b"@, branch_name@, target_dir@, base_branch@]);
        r
    }

    /// `git worktree remove [--force] <target_dir>`.
    pub fn remove_worktree(&self, target_dir: &str, force: bool) -> (r: GitCommand)
        ensures
            is_command(r, GitOp::RemoveWorktree, if force {
                seq!["worktree"@, "remove"@, "--force"@, target_dir@]
            } else {
                seq!["worktree"@, "remove"@, target_dir@]
            }),
    {
        let args = if force {
            strings(&vec!["worktree", "remove", "--force", target_dir])
        } else {
            strings(&vec!["worktree", "remove", target_dir])
        };
        let r = GitCommand { op: GitOp::RemoveWorktree, args };
        assert(string_views(r.args@) =~= if force {
            seq!["worktree"@, "remove"@, "--force"@, target_dir@]
        } else {
            seq!["worktree"@, "remove"@, target_dir@]
        });
        r
    }

    /// `git branch -d <branch>`, or `-D` when forced.
    pub fn delete_branch(&self, branch: &str, force: bool) -> (r: GitCommand)
        ensures
            is_command(r, GitOp::DeleteBranch, seq!["branch"@, if force { "-D"@ } else { "-d"@ }, branch@]),
    {
        let flag = if force { "-D" } else { "-d" };
        let args = strings(&vec!["branch", flag, branch]);
        let r = GitCommand { op: GitOp::DeleteBranch, args };
        assert(string_views(r.args@) =~= seq!["branch"@, if force { "-D"@ } else { "-d"@ }, branch@]);
        r
    }

    /// `git checkout <branch>`.
    pub fn checkout_branch(&self, branch: &str) -> (r: GitCommand)
        ensures
            is_command(r, GitOp::Checkout, seq!["checkout"@, branch@]),
    {
        let args = strings(&vec!["checkout", branch]);
        let r = GitCommand { op: GitOp::Checkout, args };
        assert(string_views(r.args@) =~= seq!["checkout"@, branch@]);
        r
    }

    /// The steps that merge `source_branch` into `target_branch` with a merge
    /// commit, given the branch checked out now.
    pub fn merge_branch(&self, source_branch: &str, target_branch: &str, current: &Option<String>) -> (r: MergePlan)
        ensures
            is_command(r.merge, GitOp::Merge, seq!["merge"@, "--no-ff"@, source_branch@]),
            match current {
                Some(c) if c@ == target_branch@ => r.switch_to_target is None && r.switch_back is None,
                Some(c) => (r.switch_to_target matches Some(t) && is_command(t, GitOp::Checkout, seq!["checkout"@, target_branch@]))
                    && (r.switch_back matches Some(b) && is_command(b, GitOp::Checkout, seq!["checkout"@, c@])),
                None => (r.switch_to_target matches Some(t) && is_command(t, GitOp::Checkout, seq!["checkout"@, target_branch@]))
                    && r.switch_back is None,
            },
    {
        let args = strings(&vec!["merge", "--no-ff", source_branch]);
        let merge = GitCommand { op: GitOp::Merge, args };
        assert(string_views(merge.args@) =~= seq!["merge"@, "--no-ff"@, source_branch@]);
        let on_target = match current {
            Some(c) => same_text(c.as_str(), target_branch),
            None => false,
        };
        if on_target {
            return MergePlan { switch_to_target: None, merge, switch_back: None };
        }
        let switch_back = match current {
            Some(c) => Some(self.checkout_branch(c.as_str())),
            None => None,
        };
        MergePlan { switch_to_target: Some(self.checkout_branch(target_branch)), merge, switch_back }
    }
}

impl MergePlan {
    /// The result of the whole merge. A failed switch to the target stops
    /// the plan before the merge; the switch back runs whatever the merge
    /// did. A failed merge is reported first, then a failed switch back.
    pub fn result(&self, switched: &GitOutput, merged: &GitOutput, switched_back: &GitOutput) -> (r: Result<(), AgentError>)
        ensures
            (self.switch_to_target is Some && !switched.success) ==> (r matches Err(AgentError::MergeFailed(d)) && d@ == switched.stderr@),
            (self.switch_to_target is None || switched.success) ==> {
                if !merged.success {
                    (r matches Err(AgentError::MergeFailed(d)) && d@ == merged.stderr@)
                } else if self.switch_back is Some && !switched_back.success {
                    (r matches Err(AgentError::GitCommandFailed(d)) && d@ == switched_back.stderr@)
                } else {
                    r is Ok
                }
            },
    {
        if self.switch_to_target.is_some() && !switched.success {
            return Err(AgentError::MergeFailed(switched.stderr.clone()));
        }
        if !merged.success {
            return Err(AgentError::MergeFailed(merged.stderr.clone()));
        }
        if self.switch_back.is_some() && !switched_back.success {
            return Err(AgentError::GitCommandFailed(switched_back.stderr.clone()));
        }
        Ok(())
    }
}

} // verus!
