use agent_manager::commands::{GitCommand, GitOp};
use agent_manager::config::{Config, ConfigState};
use agent_manager::error::AgentError;
use agent_manager::git::{
    parse_worktree_list, selectable_worktrees, worktree_label, GitOutput, GitRepo, Worktree,
};

fn output(success: bool, stdout: &str, stderr: &str) -> GitOutput {
    GitOutput { success, stdout: stdout.to_string(), stderr: stderr.to_string() }
}

fn repo() -> GitRepo {
    GitRepo { root: "/home/me/project".to_string(), name: "project".to_string() }
}

fn args(cmd: &GitCommand) -> Vec<&str> {
    cmd.args.iter().map(|s| s.as_str()).collect()
}

#[test]
fn parse_records_with_trailing_blank_line() {
    let text = "worktree /home/me/project\nHEAD abc\nbranch refs/heads/main\n\nworktree /tmp/wt\nHEAD def\nbranch refs/heads/agent/x\nlocked\n\n";
    let list = parse_worktree_list(text);
    assert_eq!(list.len(), 2);
    assert_eq!(list[0].path, "/home/me/project");
    assert_eq!(list[0].branch.as_deref(), Some("main"));
    assert!(!list[0].locked);
    assert_eq!(list[1].path, "/tmp/wt");
    assert_eq!(list[1].branch.as_deref(), Some("agent/x"));
    assert!(list[1].locked);
}

#[test]
fn parse_records_without_trailing_blank_line() {
    let text = "worktree /a\nbranch refs/heads/main\n\nworktree /b\ndetached\n\nworktree /c\nbranch refs/heads/c";
    let list = parse_worktree_list(text);
    assert_eq!(list.len(), 3);
    assert_eq!(list[1].path, "/b");
    assert_eq!(list[1].branch, None);
    assert_eq!(list[2].path, "/c");
    assert_eq!(list[2].branch.as_deref(), Some("c"));
}

#[test]
fn parse_drops_record_without_path_and_resets_state() {
    let text = "branch refs/heads/ghost\nlocked\n\nworktree /a\n";
    let list = parse_worktree_list(text);
    assert_eq!(list.len(), 1);
    assert_eq!(list[0].path, "/a");
    assert_eq!(list[0].branch, None);
    assert!(!list[0].locked);
}

#[test]
fn parse_empty_listing() {
    assert!(parse_worktree_list("").is_empty());
}

#[test]
fn list_worktrees_reports_git_failure() {
    let r = repo().list_worktrees(&output(false, "", "fatal: boom"));
    assert!(matches!(r, Err(AgentError::GitCommandFailed(ref d)) if d == "fatal: boom"));
}

#[test]
fn selectable_excludes_repository_root() {
    let text = "worktree /home/me/project\nbranch refs/heads/main\n\nworktree /tmp/one\nbranch refs/heads/one\n";
    let list = repo().list_worktrees(&output(true, text, "")).ok().unwrap();
    assert_eq!(list.len(), 2);
    let picks = selectable_worktrees(&list, "/home/me/project");
    assert_eq!(picks.len(), 1);
    assert_eq!(picks[0].path, "/tmp/one");
}

#[test]
fn labels_show_branch_path_and_lock() {
    let wt = Worktree { path: "/tmp/x".to_string(), branch: None, locked: true };
    assert_eq!(worktree_label(&wt), "<detached> - /tmp/x [locked]");
    let wt = Worktree { path: "/tmp/y".to_string(), branch: Some("b".to_string()), locked: false };
    assert_eq!(worktree_label(&wt), "b - /tmp/y");
}

#[test]
fn discover_reads_toplevel() {
    let r = GitRepo::discover(&output(true, "/home/me/project\n", "")).ok().unwrap();
    assert_eq!(r.root, "/home/me/project");
    assert_eq!(r.name, "project");
}

#[test]
fn discover_outside_repository() {
    let r = GitRepo::discover(&output(false, "", "fatal: not a git repository"));
    assert!(matches!(r, Err(AgentError::NotARepository(_))));
}

#[test]
fn current_branch_named_and_detached() {
    let r = repo();
    assert_eq!(r.current_branch(&output(true, "agent/x\n", "")).as_deref(), Some("agent/x"));
    assert_eq!(r.current_branch(&output(true, "HEAD\n", "")), None);
    assert_eq!(r.current_branch(&output(false, "", "")), None);
}

fn state(over: Option<&str>) -> ConfigState {
    let mut config = Config::default();
    config.worktree_base_override = over.map(|s| s.to_string());
    ConfigState { config, templates_dir: "/cfg/templates".to_string() }
}

#[test]
fn worktree_base_default_is_sibling() {
    let b = repo().worktree_base(&state(None)).ok().unwrap();
    assert_eq!(b, "/home/me/project-worktree-agents");
}

#[test]
fn worktree_base_override_substitutes() {
    let b = repo().worktree_base(&state(Some("/wt/{repo_name}/x{repo_root}"))).ok().unwrap();
    assert_eq!(b, "/wt/project/x/home/me/project");
}

#[test]
fn worktree_base_of_root_directory() {
    let r = GitRepo { root: "/".to_string(), name: "x".to_string() };
    assert!(matches!(r.worktree_base(&state(None)), Err(AgentError::NoParentDirectory(_))));
}

#[test]
fn create_worktree_command() {
    let c = repo().create_worktree("agent/x", "/wt/agent-x", "main");
    assert_eq!(args(&c), vec!["worktree", "add", "-b", "agent/x", "/wt/agent-x", "main"]);
    assert!(matches!(
        c.outcome(&output(false, "", "already exists")),
        Err(AgentError::WorktreeCreateFailed(_))
    ));
}

#[test]
fn dirty_removal_fails_and_forced_removal_succeeds() {
    let soft = repo().remove_worktree("/wt/x", false);
    assert_eq!(args(&soft), vec!["worktree", "remove", "/wt/x"]);
    let failed = output(false, "", "contains modified or untracked files");
    assert!(matches!(soft.outcome(&failed), Err(AgentError::WorktreeRemoveFailed(_))));
    let forced = repo().remove_worktree("/wt/x", true);
    assert_eq!(args(&forced), vec!["worktree", "remove", "--force", "/wt/x"]);
    assert!(forced.op == GitOp::RemoveWorktree);
    assert!(forced.outcome(&output(true, "", "")).is_ok());
}

#[test]
fn delete_branch_commands() {
    assert_eq!(args(&repo().delete_branch("b", false)), vec!["branch", "-d", "b"]);
    assert_eq!(args(&repo().delete_branch("b", true)), vec!["branch", "-D", "b"]);
    let r = repo().delete_branch("b", false).outcome(&output(false, "", "not fully merged"));
    assert!(matches!(r, Err(AgentError::BranchDeleteFailed(_))));
}

#[test]
fn merge_from_source_branch_switches_and_returns() {
    let plan = repo().merge_branch("agent/x", "main", &Some("agent/x".to_string()));
    assert_eq!(args(plan.switch_to_target.as_ref().unwrap()), vec!["checkout", "main"]);
    assert_eq!(args(&plan.merge), vec!["merge", "--no-ff", "agent/x"]);
    assert_eq!(args(plan.switch_back.as_ref().unwrap()), vec!["checkout", "agent/x"]);
    let ok = output(true, "", "");
    assert!(plan.result(&ok, &ok, &ok).is_ok());
}

#[test]
fn merge_on_target_does_not_switch() {
    let plan = repo().merge_branch("agent/x", "main", &Some("main".to_string()));
    assert!(plan.switch_to_target.is_none());
    assert!(plan.switch_back.is_none());
}

#[test]
fn merge_conflict_is_reported() {
    let plan = repo().merge_branch("agent/x", "main", &None);
    assert!(plan.switch_back.is_none());
    let ok = output(true, "", "");
    let conflict = output(false, "", "CONFLICT");
    assert!(matches!(plan.result(&ok, &conflict, &ok), Err(AgentError::MergeFailed(ref d)) if d == "CONFLICT"));
    assert!(matches!(plan.result(&conflict, &ok, &ok), Err(AgentError::MergeFailed(_))));
}

#[test]
fn checkout_failure_and_failed_switch_back() {
    let c = repo().checkout_branch("main");
    assert_eq!(args(&c), vec!["checkout", "main"]);
    assert!(matches!(c.outcome(&output(false, "", "no such branch")), Err(AgentError::GitCommandFailed(_))));
    let plan = repo().merge_branch("agent/x", "main", &Some("dev".to_string()));
    let ok = output(true, "", "");
    let bad = output(false, "", "checkout failed");
    assert!(matches!(plan.result(&ok, &ok, &bad), Err(AgentError::GitCommandFailed(ref d)) if d == "checkout failed"));
}

#[test]
fn parse_records_separated_by_several_blank_lines() {
    let text = "branch refs/heads/a\nworktree /a\n\n\n\nworktree /b\nlocked\n\n";
    let list = parse_worktree_list(text);
    assert_eq!(list.len(), 2);
    assert_eq!(list[0].path, "/a");
    assert_eq!(list[0].branch.as_deref(), Some("a"));
    assert_eq!(list[1].path, "/b");
    assert!(list[1].locked);
}
