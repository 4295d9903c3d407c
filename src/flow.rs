//! The feature workflow as a state machine: each step names what the caller
//! does next (ask, run git, run a program), and the caller answers with an
//! event. Creating, rolling back, merging and tearing down are decided here.
use vstd::prelude::*;

use crate::naming::{sanitize_name, sanitized};
use crate::paths::{join_path, path_join};
use crate::text::{trim, trimmed};

verus! {

broadcast use vstd::string::group_string_axioms;

/// How a run of the workflow ended.
#[derive(PartialEq, Eq, Structural, Clone, Copy)]
pub enum End {
    Completed,
    EmptyBranchName,
    EmptyFeature,
    /// The worktree directory exists already; nothing was created.
    TargetExists,
    /// git could not create the worktree; nothing was created.
    CreateFailed,
    /// No template was chosen; the worktree and branch were rolled back.
    NoTemplate,
    /// The template could not be rendered into the worktree.
    RenderFailed,
    /// The editor failed on the rendered template.
    EditFailed,
}

/// What the caller does next.
#[derive(PartialEq, Eq, Structural, Clone, Copy)]
pub enum Step {
    /// Ask for the branch name (answer: `Text`).
    AskBranchName,
    /// Ask for the feature description (answer: `Text`).
    AskFeature,
    /// Ask for the base branch, offering the merge target (answer: `Text`).
    AskBaseBranch,
    /// Create the worktree base directory and tell whether the worktree
    /// directory exists (answer: `Answer`).
    CheckTarget,
    /// Run `create_worktree` (answer: `Outcome`).
    CreateWorktree,
    /// Choose a template (answer: `Template`).
    ChooseTemplate,
    /// Force-remove the new worktree (answer: `Outcome`, whatever it was).
    RollbackWorktree,
    /// Force-delete the new branch (answer: `Outcome`, whatever it was).
    RollbackBranch,
    /// Render the chosen template into the worktree and register it in the
    /// exclude file (answer: `Outcome`).
    RenderTemplate,
    /// Ask whether to edit the rendered template (answer: `Answer`).
    ConfirmEdit,
    /// Run the editor on it (answer: `Outcome`).
    Edit,
    /// Run the agent (answer: `Outcome`; a failure is reported, not fatal).
    RunAgent,
    /// Ask whether to open the review tool (answer: `Answer`).
    ConfirmReview,
    /// Run the review tool (answer: `Outcome`).
    Review,
    /// Ask whether to merge the branch into the merge target (answer: `Answer`).
    ConfirmMerge,
    /// Run the merge plan (answer: `Outcome`).
    Merge,
    /// Ask whether to remove the worktree (answer: `Answer`).
    ConfirmRemove,
    /// Remove it without force (answer: `Outcome`).
    Remove,
    /// Ask whether to force the removal (answer: `Answer`).
    ConfirmForceRemove,
    /// Remove it with force (answer: `Outcome`).
    ForceRemove,
    /// Ask whether to delete the branch as well (answer: `Answer`).
    ConfirmDeleteBranch,
    /// Delete it without force (answer: `Outcome`).
    DeleteBranch,
    /// Ask whether to force the deletion (answer: `Answer`).
    ConfirmForceDelete,
    /// Delete it with force (answer: `Outcome`).
    ForceDeleteBranch,
    /// Nothing more to do.
    Done(End),
}

/// The caller's answer to a step.
pub enum Event {
    Text(String),
    Answer(bool),
    Outcome(bool),
    Template(Option<String>),
}

/// One run of the feature workflow.
pub struct FeatureFlow {
    pub step: Step,
    pub branch: String,
    pub feature: String,
    pub base_branch: String,
    pub worktree_dir: String,
    pub template: String,
    pub merge_target: String,
    pub worktree_base: String,
}

pub struct FlowModel {
    pub step: Step,
    pub branch: Seq<char>,
    pub feature: Seq<char>,
    pub base_branch: Seq<char>,
    pub worktree_dir: Seq<char>,
    pub template: Seq<char>,
    pub merge_target: Seq<char>,
    pub worktree_base: Seq<char>,
}

impl View for FeatureFlow {
    type V = FlowModel;

    open spec fn view(&self) -> FlowModel {
        FlowModel {
            step: self.step,
            branch: self.branch@,
            feature: self.feature@,
            base_branch: self.base_branch@,
            worktree_dir: self.worktree_dir@,
            template: self.template@,
            merge_target: self.merge_target@,
            worktree_base: self.worktree_base@,
        }
    }
}

/// The step that follows `s` on event `e`; an event that does not answer
/// `s` changes nothing.
pub open spec fn next_step(s: Step, e: Event) -> Step {
    match (s, e) {
        (Step::AskBranchName, Event::Text(t)) => if trim(t@).len() == 0 {
            Step::Done(End::EmptyBranchName)
        } else {
            Step::AskFeature
        },
        (Step::AskFeature, Event::Text(t)) => if trim(t@).len() == 0 {
            Step::Done(End::EmptyFeature)
        } else {
            Step::AskBaseBranch
        },
        (Step::AskBaseBranch, Event::Text(_)) => Step::CheckTarget,
        (Step::CheckTarget, Event::Answer(exists)) => if exists {
            Step::Done(End::TargetExists)
        } else {
            Step::CreateWorktree
        },
        (Step::CreateWorktree, Event::Outcome(ok)) => if ok {
            Step::ChooseTemplate
        } else {
            Step::Done(End::CreateFailed)
        },
        (Step::ChooseTemplate, Event::Template(t)) => if t is Some {
            Step::RenderTemplate
        } else {
            Step::RollbackWorktree
        },
        (Step::RollbackWorktree, Event::Outcome(_)) => Step::RollbackBranch,
        (Step::RollbackBranch, Event::Outcome(_)) => Step::Done(End::NoTemplate),
        (Step::RenderTemplate, Event::Outcome(ok)) => if ok {
            Step::ConfirmEdit
        } else {
            Step::Done(End::RenderFailed)
        },
        (Step::ConfirmEdit, Event::Answer(yes)) => if yes {
            Step::Edit
        } else {
            Step::RunAgent
        },
        (Step::Edit, Event::Outcome(ok)) => if ok {
            Step::RunAgent
        } else {
            Step::Done(End::EditFailed)
        },
        (Step::RunAgent, Event::Outcome(_)) => Step::ConfirmReview,
        (Step::ConfirmReview, Event::Answer(yes)) => if yes {
            Step::Review
        } else {
            Step::ConfirmMerge
        },
        (Step::Review, Event::Outcome(_)) => Step::ConfirmMerge,
        (Step::ConfirmMerge, Event::Answer(yes)) => if yes {
            Step::Merge
        } else {
            Step::ConfirmRemove
        },
        (Step::Merge, Event::Outcome(_)) => Step::ConfirmRemove,
        (Step::ConfirmRemove, Event::Answer(yes)) => if yes {
            Step::Remove
        } else {
            Step::Done(End::Completed)
        },
        (Step::Remove, Event::Outcome(ok)) => if ok {
            Step::ConfirmDeleteBranch
        } else {
            Step::ConfirmForceRemove
        },
        (Step::ConfirmForceRemove, Event::Answer(yes)) => if yes {
            Step::ForceRemove
        } else {
            Step::ConfirmDeleteBranch
        },
        (Step::ForceRemove, Event::Outcome(_)) => Step::ConfirmDeleteBranch,
        (Step::ConfirmDeleteBranch, Event::Answer(yes)) => if yes {
            Step::DeleteBranch
        } else {
            Step::Done(End::Completed)
        },
        (Step::DeleteBranch, Event::Outcome(ok)) => if ok {
            Step::Done(End::Completed)
        } else {
            Step::ConfirmForceDelete
        },
        (Step::ConfirmForceDelete, Event::Answer(yes)) => if yes {
            Step::ForceDeleteBranch
        } else {
            Step::Done(End::Completed)
        },
        (Step::ForceDeleteBranch, Event::Outcome(_)) => Step::Done(End::Completed),
        _ => s,
    }
}

/// The workflow after event `e`: the next step, and what the answer sets.
/// The branch and the feature are kept trimmed; the worktree directory is
/// the slug of the branch under the worktree base.
pub open spec fn advance(f: FlowModel, e: Event) -> FlowModel {
    let step = next_step(f.step, e);
    match (f.step, e) {
        (Step::AskBranchName, Event::Text(t)) => FlowModel { step, branch: trim(t@), ..f },
        (Step::AskFeature, Event::Text(t)) => FlowModel { step, feature: trim(t@), ..f },
        (Step::AskBaseBranch, Event::Text(t)) => FlowModel {
            step,
            base_branch: t@,
            worktree_dir: join_path(f.worktree_base, sanitized(f.branch)),
            ..f
        },
        (Step::ChooseTemplate, Event::Template(Some(p))) => FlowModel { step, template: p@, ..f },
        _ => FlowModel { step, ..f },
    }
}

/// When no template is chosen after the worktree was created, the run
/// force-removes that worktree, then force-deletes its branch, whatever each
/// of these gives, and ends without an error.
pub proof fn lemma_no_template_rolls_back(f: FlowModel, removed: bool, deleted: bool)
    requires
        f.step == Step::ChooseTemplate,
    ensures
        ({
            let f1 = advance(f, Event::Template(None));
            let f2 = advance(f1, Event::Outcome(removed));
            let f3 = advance(f2, Event::Outcome(deleted));
            &&& f1.step == Step::RollbackWorktree
            &&& f2.step == Step::RollbackBranch
            &&& f3.step == Step::Done(End::NoTemplate)
            &&& f3.branch == f.branch
            &&& f3.worktree_dir == f.worktree_dir
        }),
{
}

/// An empty branch name or feature description ends the run at once, before
/// anything is created.
pub proof fn lemma_empty_input_aborts(f: FlowModel, t: String)
    requires
        f.step == Step::AskBranchName || f.step == Step::AskFeature,
        trim(t@).len() == 0,
    ensures
        advance(f, Event::Text(t)).step matches Step::Done(end) && (end == End::EmptyBranchName
            || end == End::EmptyFeature),
{
}

impl FeatureFlow {
    /// A run that starts by asking for the branch name.
    pub fn new(merge_target: &str, worktree_base: &str) -> (r: FeatureFlow)
        ensures
            r.step == Step::AskBranchName,
            r.merge_target@ == merge_target@,
            r.worktree_base@ == worktree_base@,
    {
        FeatureFlow {
            step: Step::AskBranchName,
            branch: String::new(),
            feature: String::new(),
            base_branch: String::new(),
            worktree_dir: String::new(),
            template: String::new(),
            merge_target: String::from_str(merge_target),
            worktree_base: String::from_str(worktree_base),
        }
    }

    /// Takes the answer to the current step; returns the next one.
    pub fn handle(&mut self, event: Event) -> (r: Step)
        ensures
            final(self)@ == advance(old(self)@, event),
            r == final(self).step,
    {
        let ghost e = event;
        let step = self.step;
        match event {
            Event::Text(t) => match step {
                Step::AskBranchName => {
                    let b = trimmed(t.as_str());
                    self.step = if b.unicode_len() == 0 {
                        Step::Done(End::EmptyBranchName)
                    } else {
                        Step::AskFeature
                    };
                    self.branch = b;
                },
                Step::AskFeature => {
                    let d = trimmed(t.as_str());
                    self.step = if d.unicode_len() == 0 {
                        Step::Done(End::EmptyFeature)
                    } else {
                        Step::AskBaseBranch
                    };
                    self.feature = d;
                },
                Step::AskBaseBranch => {
                    let slug = sanitize_name(self.branch.as_str());
                    self.worktree_dir = path_join(self.worktree_base.as_str(), slug.as_str());
                    self.base_branch = t;
                    self.step = Step::CheckTarget;
                },
                _ => {},
            },
            Event::Answer(yes) => {
                self.step = match step {
                    Step::CheckTarget => if yes { Step::Done(End::TargetExists) } else { Step::CreateWorktree },
                    Step::ConfirmEdit => if yes { Step::Edit } else { Step::RunAgent },
                    Step::ConfirmReview => if yes { Step::Review } else { Step::ConfirmMerge },
                    Step::ConfirmMerge => if yes { Step::Merge } else { Step::ConfirmRemove },
                    Step::ConfirmRemove => if yes { Step::Remove } else { Step::Done(End::Completed) },
                    Step::ConfirmForceRemove => if yes { Step::ForceRemove } else { Step::ConfirmDeleteBranch },
                    Step::ConfirmDeleteBranch => if yes { Step::DeleteBranch } else { Step::Done(End::Completed) },
                    Step::ConfirmForceDelete => if yes { Step::ForceDeleteBranch } else { Step::Done(End::Completed) },
                    _ => step,
                };
            },
            Event::Outcome(ok) => {
                self.step = match step {
                    Step::CreateWorktree => if ok { Step::ChooseTemplate } else { Step::Done(End::CreateFailed) },
                    Step::RollbackWorktree => Step::RollbackBranch,
                    Step::RollbackBranch => Step::Done(End::NoTemplate),
                    Step::RenderTemplate => if ok { Step::ConfirmEdit } else { Step::Done(End::RenderFailed) },
                    Step::Edit => if ok { Step::RunAgent } else { Step::Done(End::EditFailed) },
                    Step::RunAgent => Step::ConfirmReview,
                    Step::Review => Step::ConfirmMerge,
                    Step::Merge => Step::ConfirmRemove,
                    Step::Remove => if ok { Step::ConfirmDeleteBranch } else { Step::ConfirmForceRemove },
                    Step::ForceRemove => Step::ConfirmDeleteBranch,
                    Step::DeleteBranch => if ok { Step::Done(End::Completed) } else { Step::ConfirmForceDelete },
                    Step::ForceDeleteBranch => Step::Done(End::Completed),
                    _ => step,
                };
            },
            Event::Template(t) => {
                if let Step::ChooseTemplate = step {
                    match t {
                        Some(p) => {
                            self.template = p;
                            self.step = Step::RenderTemplate;
                        },
                        None => {
                            self.step = Step::RollbackWorktree;
                        },
                    }
                }
            },
        }
        self.step
    }

    /// The automatic template variables: `feature` and `branch`.
    pub fn automatic_variables(&self) -> (r: Vec<(String, String)>)
        ensures
            r@.len() == 2,
            r@[0].0@ == "feature"@ && r@[0].1@ == self.feature@,
            r@[1].0@ == "branch"@ && r@[1].1@ == self.branch@,
    {
        let mut r: Vec<(String, String)> = Vec::new();
        r.push((String::from_str("feature"), self.feature.clone()));
        r.push((String::from_str("branch"), self.branch.clone()));
        r
    }
}

} // verus!
