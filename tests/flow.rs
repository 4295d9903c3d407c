use agent_manager::agent::agent_launch;
use agent_manager::config::{is_blank, Config};
use agent_manager::error::{program_result, AgentError, Program, ProgramRun};
use agent_manager::flow::{End, Event, FeatureFlow, Step};
use agent_manager::git::Worktree;
use agent_manager::session::{
    menu_action, menu_items, merge_source, picked_index, picker_lines, resume_plan, DeleteFlow,
    DeleteStep, MenuAction,
};

fn text(s: &str) -> Event {
    Event::Text(s.to_string())
}

fn started() -> FeatureFlow {
    FeatureFlow::new("main", "/home/me/project-worktree-agents")
}

#[test]
fn empty_branch_name_aborts() {
    let mut f = started();
    assert!(f.handle(text("   ")) == Step::Done(End::EmptyBranchName));
}

#[test]
fn empty_feature_aborts() {
    let mut f = started();
    assert!(f.handle(text("agent/x")) == Step::AskFeature);
    assert!(f.handle(text("  ")) == Step::Done(End::EmptyFeature));
}

#[test]
fn existing_target_aborts_before_creation() {
    let mut f = started();
    f.handle(text("agent/x"));
    f.handle(text("Add login"));
    assert!(f.handle(text("main")) == Step::CheckTarget);
    assert_eq!(f.worktree_dir, "/home/me/project-worktree-agents/agent-x");
    assert!(f.handle(Event::Answer(true)) == Step::Done(End::TargetExists));
}

#[test]
fn no_template_rolls_back_worktree_then_branch() {
    let mut f = started();
    f.handle(text("agent/x"));
    f.handle(text("Add login"));
    f.handle(text("main"));
    f.handle(Event::Answer(false));
    assert!(f.handle(Event::Outcome(true)) == Step::ChooseTemplate);
    assert!(f.handle(Event::Template(None)) == Step::RollbackWorktree);
    assert!(f.handle(Event::Outcome(false)) == Step::RollbackBranch);
    assert!(f.handle(Event::Outcome(false)) == Step::Done(End::NoTemplate));
}

#[test]
fn full_run_with_teardown() {
    let mut f = started();
    f.handle(text(" agent/x "));
    f.handle(text(" Add login "));
    f.handle(text("main"));
    assert_eq!(f.branch, "agent/x");
    assert_eq!(f.feature, "Add login");
    assert_eq!(f.base_branch, "main");
    f.handle(Event::Answer(false));
    f.handle(Event::Outcome(true));
    assert!(f.handle(Event::Template(Some("/g/default.md".to_string()))) == Step::RenderTemplate);
    assert_eq!(f.template, "/g/default.md");
    let vars = f.automatic_variables();
    assert_eq!(vars[0], ("feature".to_string(), "Add login".to_string()));
    assert_eq!(vars[1], ("branch".to_string(), "agent/x".to_string()));
    assert!(f.handle(Event::Outcome(true)) == Step::ConfirmEdit);
    assert!(f.handle(Event::Answer(false)) == Step::RunAgent);
    assert!(f.handle(Event::Outcome(false)) == Step::ConfirmReview);
    assert!(f.handle(Event::Answer(false)) == Step::ConfirmMerge);
    assert!(f.handle(Event::Answer(true)) == Step::Merge);
    assert!(f.handle(Event::Outcome(false)) == Step::ConfirmRemove);
    assert!(f.handle(Event::Answer(true)) == Step::Remove);
    assert!(f.handle(Event::Outcome(false)) == Step::ConfirmForceRemove);
    assert!(f.handle(Event::Answer(false)) == Step::ConfirmDeleteBranch);
    assert!(f.handle(Event::Answer(true)) == Step::DeleteBranch);
    assert!(f.handle(Event::Outcome(false)) == Step::ConfirmForceDelete);
    assert!(f.handle(Event::Answer(true)) == Step::ForceDeleteBranch);
    assert!(f.handle(Event::Outcome(true)) == Step::Done(End::Completed));
}

#[test]
fn unrelated_event_changes_nothing() {
    let mut f = started();
    assert!(f.handle(Event::Answer(true)) == Step::AskBranchName);
}

#[test]
fn agent_gets_template_content_by_default() {
    let cfg = Config::default();
    let l = agent_launch(&cfg, "/wt/x", "agent/x", "/wt/x/.agent-template", "do it");
    assert_eq!(l.program, "codex");
    assert_eq!(l.args, vec!["do it".to_string()]);
    assert_eq!(l.dir, "/wt/x");
    assert_eq!(l.env[0], ("AGENT_TEMPLATE_PATH".to_string(), "/wt/x/.agent-template".to_string()));
    assert_eq!(l.env[1], ("AGENT_WORKTREE_PATH".to_string(), "/wt/x".to_string()));
    assert_eq!(l.env[2], ("AGENT_BRANCH_NAME".to_string(), "agent/x".to_string()));
    assert_eq!(l.env[3], ("AGENT_TEMPLATE_CONTENT".to_string(), "do it".to_string()));
}

#[test]
fn agent_args_without_template_get_content_appended() {
    let mut cfg = Config::default();
    cfg.agent_args = vec!["--cd={worktree}".to_string(), "--branch".to_string(), "{branch}".to_string()];
    let l = agent_launch(&cfg, "/wt/x", "agent/x", "/t", "body");
    assert_eq!(l.args, vec!["--cd=/wt/x", "--branch", "agent/x", "body"]);
    cfg.agent_args = vec!["--file={template}".to_string()];
    let l = agent_launch(&cfg, "/wt/x", "agent/x", "/t", "body");
    assert_eq!(l.args, vec!["--file=/t"]);
}

#[test]
fn config_defaults_and_blank_text() {
    let c = Config::default();
    assert_eq!(c.merge_target, "main");
    assert_eq!(c.template_editor, "vim");
    assert_eq!(c.agent_display_name, "Codex");
    assert_eq!(c.agent_args, vec!["{template_content}".to_string()]);
    assert!(c.worktree_base_override.is_none());
    assert!(is_blank(" \n\t"));
    assert!(!is_blank("merge_target = \"dev\""));
}

#[test]
fn resume_needs_cached_template() {
    let wt = Worktree { path: "/wt/x".to_string(), branch: None, locked: false };
    let r = resume_plan(&wt, false);
    assert!(matches!(r, Err(AgentError::CachedTemplateMissing(ref p)) if p == "/wt/x/.agent-template"));
    let p = resume_plan(&wt, true).ok().unwrap();
    assert_eq!(p.branch, "<detached>");
    assert_eq!(p.template, "/wt/x/.agent-template");
    assert!(matches!(merge_source(&wt), Err(AgentError::MergeFailed(_))));
}

#[test]
fn delete_flow_offers_forced_retry_once() {
    let wt = Worktree { path: "/wt/x".to_string(), branch: Some("agent/x".to_string()), locked: false };
    let mut d = DeleteFlow::new(&wt);
    assert!(d.handle(Event::Answer(true)) == DeleteStep::Remove);
    assert!(d.handle(Event::Outcome(false)) == DeleteStep::ConfirmForceRemove);
    assert!(d.handle(Event::Answer(true)) == DeleteStep::ForceRemove);
    assert!(d.handle(Event::Outcome(false)) == DeleteStep::ConfirmDeleteBranch);
    assert!(d.handle(Event::Answer(false)) == DeleteStep::Done);
}

#[test]
fn delete_flow_without_branch_ends_after_removal() {
    let wt = Worktree { path: "/wt/x".to_string(), branch: None, locked: false };
    let mut d = DeleteFlow::new(&wt);
    assert!(d.handle(Event::Answer(false)) == DeleteStep::Done);
}

#[test]
fn menu_choices() {
    assert_eq!(menu_items().len(), 6);
    assert!(menu_action(Some(0)) == MenuAction::NewFeature);
    assert!(menu_action(Some(3)) == MenuAction::DeleteWorktree);
    assert!(menu_action(Some(5)) == MenuAction::Quit);
    assert!(menu_action(None) == MenuAction::Quit);
}

#[test]
fn picker_lines_and_index() {
    let lines = picker_lines(&vec!["a\nb".to_string(), "c".to_string()]);
    assert_eq!(lines, vec!["a b".to_string(), "c".to_string()]);
    assert_eq!(picked_index(&lines, "c"), Some(1));
    assert_eq!(picked_index(&lines, "zz"), None);
}

#[test]
fn error_messages_carry_detail() {
    assert_eq!(AgentError::MergeFailed("CONFLICT".to_string()).message(), "merge failed: CONFLICT");
    assert_eq!(AgentError::NoTemplateAvailable.message(), "no template available");
}

#[test]
fn program_results_by_kind() {
    assert!(program_result(Program::Agent, ProgramRun::Exited(true, "exit 0".to_string())).is_ok());
    let r = program_result(Program::Agent, ProgramRun::Exited(false, "exit 2".to_string()));
    assert!(matches!(r, Err(AgentError::AgentNonZeroExit(ref s)) if s == "exit 2"));
    let r = program_result(Program::Agent, ProgramRun::NotStarted("not found".to_string()));
    assert!(matches!(r, Err(AgentError::AgentLaunchFailed(_))));
    let r = program_result(Program::Editor, ProgramRun::Exited(false, "exit 1".to_string()));
    assert!(matches!(r, Err(AgentError::EditorFailed(_))));
    let r = program_result(Program::ReviewTool, ProgramRun::NotStarted("missing".to_string()));
    assert!(matches!(r, Err(AgentError::ReviewToolFailed(_))));
}
