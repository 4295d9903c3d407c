//! The interactive session around the feature workflow: the main menu, and
//! resuming, merging and deleting an existing worktree.
use vstd::prelude::*;

use crate::error::AgentError;
use crate::flow::Event;
use crate::git::{opt_view, Worktree};
use crate::paths::join_path;
use crate::templates::{template_destination, TEMPLATE_FILENAME};
use crate::text::{replace_all, replace_text, same_text, string_views};

verus! {

broadcast use vstd::string::group_string_axioms;

/// What the user picked in the main menu.
#[derive(PartialEq, Eq, Structural, Clone, Copy)]
pub enum MenuAction {
    NewFeature,
    StartExisting,
    MergeExisting,
    DeleteWorktree,
    ViewWorktree,
    Quit,
}

/// The main menu's entries, in the order `menu_action` reads a choice.
pub fn menu_items() -> (r: Vec<String>)
    ensures
        string_views(r@) == seq![
            "New feature -> create worktree and launch the agent"@,
            "Start an existing workflow"@,
            "Merge an existing worktree"@,
            "Delete a worktree"@,
            "Open lazygit on a worktree"@,
            "Quit"@,
        ],
{
    let mut r: Vec<String> = Vec::new();
    r.push(String::from_str("New feature -> create worktree and launch the agent"));
    r.push(String::from_str("Start an existing workflow"));
    r.push(String::from_str("Merge an existing worktree"));
    r.push(String::from_str("Delete a worktree"));
    r.push(String::from_str("Open lazygit on a worktree"));
    r.push(String::from_str("Quit"));
    assert(string_views(r@) =~= seq![
        "New feature -> create worktree and launch the agent"@,
        "Start an existing workflow"@,
        "Merge an existing worktree"@,
        "Delete a worktree"@,
        "Open lazygit on a worktree"@,
        "Quit"@,
    ]);
    r
}

/// The action of a menu choice; no choice, or the last entry, quits.
pub fn menu_action(choice: Option<usize>) -> (r: MenuAction)
    ensures
        r == match choice {
            Some(0) => MenuAction::NewFeature,
            Some(1) => MenuAction::StartExisting,
            Some(2) => MenuAction::MergeExisting,
            Some(3) => MenuAction::DeleteWorktree,
            Some(4) => MenuAction::ViewWorktree,
            _ => MenuAction::Quit,
        },
{
    match choice {
        Some(0) => MenuAction::NewFeature,
        Some(1) => MenuAction::StartExisting,
        Some(2) => MenuAction::MergeExisting,
        Some(3) => MenuAction::DeleteWorktree,
        Some(4) => MenuAction::ViewWorktree,
        _ => MenuAction::Quit,
    }
}

/// What resuming a worktree runs the agent with.
pub struct Resume {
    /// The rendered template left by an earlier run.
    pub template: String,
    /// The worktree's branch, or `<detached>`.
    pub branch: String,
}

/// Resuming a worktree re-uses the template rendered into it before; when
/// that file is gone the resume fails rather than rendering anew.
pub fn resume_plan(worktree: &Worktree, cached_exists: bool) -> (r: Result<Resume, AgentError>)
    ensures
        cached_exists ==> (r matches Ok(p) && p.template@ == join_path(worktree.path@, TEMPLATE_FILENAME@)
            && p.branch@ == match worktree.branch {
                Some(b) => b@,
                None => "<detached>"@,
            }),
        !cached_exists ==> (r matches Err(AgentError::CachedTemplateMissing(t)) && t@ == join_path(
            worktree.path@,
            TEMPLATE_FILENAME@,
        )),
{
    let template = template_destination(worktree.path.as_str());
    if !cached_exists {
        return Err(AgentError::CachedTemplateMissing(template));
    }
    let branch = match &worktree.branch {
        Some(b) => b.clone(),
        None => String::from_str("<detached>"),
    };
    Ok(Resume { template, branch })
}

/// The branch merged from a picked worktree; one on a detached HEAD has none.
pub fn merge_source(worktree: &Worktree) -> (r: Result<String, AgentError>)
    ensures
        match worktree.branch {
            Some(b) => r matches Ok(s) && s@ == b@,
            None => r matches Err(AgentError::MergeFailed(_)),
        },
{
    match &worktree.branch {
        Some(b) => Ok(b.clone()),
        None => Err(AgentError::MergeFailed(String::from_str("the worktree has no associated branch"))),
    }
}

/// Steps of deleting a picked worktree and, when it has one, its branch.
#[derive(PartialEq, Eq, Structural, Clone, Copy)]
pub enum DeleteStep {
    /// Ask whether to remove the worktree (answer: `Answer`).
    ConfirmRemove,
    /// Remove it without force (answer: `Outcome`).
    Remove,
    /// Ask whether to force the removal (answer: `Answer`).
    ConfirmForceRemove,
    /// Remove it with force (answer: `Outcome`).
    ForceRemove,
    /// Ask whether to delete the branch (answer: `Answer`).
    ConfirmDeleteBranch,
    /// Delete it without force (answer: `Outcome`).
    DeleteBranch,
    /// Ask whether to force the deletion (answer: `Answer`).
    ConfirmForceDelete,
    /// Delete it with force (answer: `Outcome`).
    ForceDeleteBranch,
    Done,
}

/// Where the branch part begins: nothing to ask without a branch.
pub open spec fn branch_stage(has_branch: bool) -> DeleteStep {
    if has_branch {
        DeleteStep::ConfirmDeleteBranch
    } else {
        DeleteStep::Done
    }
}

/// The step after `s` on event `e`. Each part is asked for on its own; a
/// failed removal or deletion offers one forced retry, and declining it or
/// its failure skips only that part.
pub open spec fn next_delete_step(s: DeleteStep, e: Event, has_branch: bool) -> DeleteStep {
    match (s, e) {
        (DeleteStep::ConfirmRemove, Event::Answer(yes)) => if yes {
            DeleteStep::Remove
        } else {
            branch_stage(has_branch)
        },
        (DeleteStep::Remove, Event::Outcome(ok)) => if ok {
            branch_stage(has_branch)
        } else {
            DeleteStep::ConfirmForceRemove
        },
        (DeleteStep::ConfirmForceRemove, Event::Answer(yes)) => if yes {
            DeleteStep::ForceRemove
        } else {
            branch_stage(has_branch)
        },
        (DeleteStep::ForceRemove, Event::Outcome(_)) => branch_stage(has_branch),
        (DeleteStep::ConfirmDeleteBranch, Event::Answer(yes)) => if yes {
            DeleteStep::DeleteBranch
        } else {
            DeleteStep::Done
        },
        (DeleteStep::DeleteBranch, Event::Outcome(ok)) => if ok {
            DeleteStep::Done
        } else {
            DeleteStep::ConfirmForceDelete
        },
        (DeleteStep::ConfirmForceDelete, Event::Answer(yes)) => if yes {
            DeleteStep::ForceDeleteBranch
        } else {
            DeleteStep::Done
        },
        (DeleteStep::ForceDeleteBranch, Event::Outcome(_)) => DeleteStep::Done,
        _ => s,
    }
}

/// Deleting one picked worktree.
pub struct DeleteFlow {
    pub step: DeleteStep,
    pub path: String,
    pub branch: Option<String>,
}

impl DeleteFlow {
    pub fn new(worktree: &Worktree) -> (r: DeleteFlow)
        ensures
            r.step == DeleteStep::ConfirmRemove,
            r.path@ == worktree.path@,
            opt_view(r.branch) == opt_view(worktree.branch),
    {
        let branch = match &worktree.branch {
            Some(b) => Some(b.clone()),
            None => None,
        };
        DeleteFlow { step: DeleteStep::ConfirmRemove, path: worktree.path.clone(), branch }
    }

    /// Takes the answer to the current step; returns the next one.
    pub fn handle(&mut self, event: Event) -> (r: DeleteStep)
        ensures
            final(self).step == next_delete_step(old(self).step, event, old(self).branch is Some),
            final(self).path == old(self).path,
            final(self).branch == old(self).branch,
            r == final(self).step,
    {
        let stage = if self.branch.is_some() {
            DeleteStep::ConfirmDeleteBranch
        } else {
            DeleteStep::Done
        };
        let step = self.step;
        self.step = match event {
            Event::Answer(yes) => match step {
                DeleteStep::ConfirmRemove => if yes { DeleteStep::Remove } else { stage },
                DeleteStep::ConfirmForceRemove => if yes { DeleteStep::ForceRemove } else { stage },
                DeleteStep::ConfirmDeleteBranch => if yes { DeleteStep::DeleteBranch } else { DeleteStep::Done },
                DeleteStep::ConfirmForceDelete => if yes { DeleteStep::ForceDeleteBranch } else { DeleteStep::Done },
                _ => step,
            },
            Event::Outcome(ok) => match step {
                DeleteStep::Remove => if ok { stage } else { DeleteStep::ConfirmForceRemove },
                DeleteStep::ForceRemove => stage,
                DeleteStep::DeleteBranch => if ok { DeleteStep::Done } else { DeleteStep::ConfirmForceDelete },
                DeleteStep::ForceDeleteBranch => DeleteStep::Done,
                _ => step,
            },
            _ => step,
        };
        self.step
    }
}

/// The lines a picker shows for `items`: each on one line, its line breaks
/// turned into spaces.
pub fn picker_lines(items: &Vec<String>) -> (r: Vec<String>)
    ensures
        r@.len() == items@.len(),
        forall|i: int| 0 <= i < r@.len() ==> #[trigger] r@[i]@ == replace_all(items@[i]@, seq!['\n'], seq![' ']),
{
    let mut r: Vec<String> = Vec::new();
    let mut i: usize = 0;
    proof {
        reveal_strlit("\n");
        reveal_strlit(" ");
    }
    while i < items.len()
        invariant
            i <= items@.len(),
            r@.len() == i,
            "\n"@ == seq!['\n'],
            " "@ == seq![' '],
            forall|j: int| 0 <= j < i ==> #[trigger] r@[j]@ == replace_all(items@[j]@, seq!['\n'], seq![' ']),
        decreases items.len() - i,
    {
        r.push(replace_text(items[i].as_str(), "\n", " "));
        i = i + 1;
    }
    r
}

/// The position of the first line equal to the picked one.
pub fn picked_index(lines: &Vec<String>, picked: &str) -> (r: Option<usize>)
    ensures
        match r {
            Some(i) => i < lines@.len() && lines@[i as int]@ == picked@ && forall|j: int|
                0 <= j < i ==> (#[trigger] lines@[j])@ != picked@,
            None => !string_views(lines@).contains(picked@),
        },
{
    let mut i: usize = 0;
    while i < lines.len()
        invariant
            i <= lines@.len(),
            forall|j: int| 0 <= j < i ==> (#[trigger] lines@[j])@ != picked@,
        decreases lines.len() - i,
    {
        if same_text(lines[i].as_str(), picked) {
            return Some(i);
        }
        i = i + 1;
    }
    assert forall|j: int| 0 <= j < string_views(lines@).len() implies string_views(lines@)[j] != picked@ by {
        assert(string_views(lines@)[j] == lines@[j]@);
    }
    None
}

} // verus!
