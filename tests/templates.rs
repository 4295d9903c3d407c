use agent_manager::error::AgentError;
use agent_manager::render::{render_template, template_prompts};
use agent_manager::templates::{
    available_templates, choose_template, exclude_file, git_dir_from_pointer,
    project_templates, template_destination, template_exclude_addition, template_names,
    TemplateChoice,
};

fn strings(v: &[&str]) -> Vec<String> {
    v.iter().map(|s| s.to_string()).collect()
}

fn pairs(v: &[(&str, &str)]) -> Vec<(String, String)> {
    v.iter().map(|(k, x)| (k.to_string(), x.to_string())).collect()
}

#[test]
fn prompted_and_automatic_values_render() {
    let content = "Task: ${feature}\nOwner: ${who}";
    let prompts = template_prompts(content, &strings(&["feature", "branch"]));
    assert_eq!(prompts, vec!["who".to_string()]);
    let values = pairs(&[("feature", "Add login"), ("branch", "agent/x"), ("who", "alice")]);
    let out = render_template(content, &values);
    assert_eq!(out, "Task: Add login\nOwner: alice");
}

#[test]
fn render_without_placeholders_or_values_is_identity() {
    let content = "# Goal\n\nNothing to fill in.\n";
    assert!(template_prompts(content, &Vec::new()).is_empty());
    assert_eq!(render_template(content, &Vec::new()), content);
}

#[test]
fn render_without_values_keeps_placeholders() {
    let content = "a ${x} b ${ y } c";
    assert_eq!(render_template(content, &Vec::new()), content);
}

#[test]
fn unknown_placeholders_stay_verbatim() {
    let values = pairs(&[("feature", "F")]);
    let out = render_template("${feature} and ${other}", &values);
    assert_eq!(out, "F and ${other}");
}

#[test]
fn keys_are_trimmed_and_empty_keys_ignored() {
    let content = "${ who } ${who} ${   } ${} ${x";
    let prompts = template_prompts(content, &Vec::new());
    assert_eq!(prompts, vec!["who".to_string()]);
    let out = render_template(content, &pairs(&[("who", "bob")]));
    assert_eq!(out, "bob bob ${   } ${} ${x");
}

#[test]
fn prompts_follow_first_occurrence_order() {
    let prompts = template_prompts("${b} ${a} ${b} ${c}", &strings(&["c"]));
    assert_eq!(prompts, strings(&["b", "a"]));
}

#[test]
fn blank_prompted_value_is_substituted() {
    let out = render_template("[${who}]", &pairs(&[("who", "")]));
    assert_eq!(out, "[]");
}

#[test]
fn no_template_available_is_not_an_error() {
    let templates = available_templates(None, Vec::new());
    assert!(templates.is_empty());
    assert!(matches!(choose_template(&templates), TemplateChoice::NoTemplate));
    let templates = available_templates(Some(Vec::new()), Vec::new());
    assert!(matches!(choose_template(&templates), TemplateChoice::NoTemplate));
}

#[test]
fn single_template_is_taken() {
    let t = strings(&["/g/only.md"]);
    assert!(matches!(choose_template(&t), TemplateChoice::Only(ref p) if p == "/g/only.md"));
    assert!(matches!(choose_template(&strings(&["/a", "/b"])), TemplateChoice::Ask));
}

#[test]
fn project_templates_shadow_global_ones() {
    let project = Some(strings(&["/p/.agent-templates/z.md", "/p/.agent-templates/a.md"]));
    let global = strings(&["/g/default.md"]);
    let t = available_templates(project, global.clone());
    assert_eq!(t, strings(&["/p/.agent-templates/a.md", "/p/.agent-templates/z.md"]));
    let t = available_templates(Some(Vec::new()), strings(&["/g/b.md", "/g/a.md", "/g/B.md"]));
    assert_eq!(t, strings(&["/g/B.md", "/g/a.md", "/g/b.md"]));
    assert_eq!(project_templates(Some(Vec::new())), None);
    assert_eq!(project_templates(None), None);
}

#[test]
fn template_names_are_file_names() {
    let names = template_names(&strings(&["/g/default.md", "/g/x/ab.txt"]));
    assert_eq!(names, strings(&["default.md", "ab.txt"]));
}

#[test]
fn template_destination_in_worktree() {
    assert_eq!(template_destination("/wt/x"), "/wt/x/.agent-template");
}

#[test]
fn exclude_addition_on_empty_and_unterminated_files() {
    assert_eq!(template_exclude_addition(""), ".agent-template\n");
    assert_eq!(template_exclude_addition("*.log"), "\n.agent-template\n");
    assert_eq!(template_exclude_addition("*.log\n"), ".agent-template\n");
}

#[test]
fn exclude_registration_twice_gives_one_entry() {
    let mut file = String::from("# git ls-files --others --exclude-from=.git/info/exclude\n*.tmp");
    file.push_str(&template_exclude_addition(&file));
    file.push_str(&template_exclude_addition(&file));
    let entries = file.lines().filter(|l| l.trim() == ".agent-template").count();
    assert_eq!(entries, 1);
    assert_eq!(template_exclude_addition(&file), "");
}

#[test]
fn exclude_entry_with_dot_slash_counts() {
    assert_eq!(template_exclude_addition("./.agent-template\n"), "");
    assert_eq!(template_exclude_addition("  .agent-template  \r\n"), "");
}

#[test]
fn gitdir_pointer_relative_and_absolute() {
    let d = git_dir_from_pointer("/wt/x", "gitdir: /repo/.git/worktrees/x\n").ok().unwrap();
    assert_eq!(d, "/repo/.git/worktrees/x");
    let d = git_dir_from_pointer("/wt/x", "gitdir:../.git/worktrees/x").ok().unwrap();
    assert_eq!(d, "/wt/x/../.git/worktrees/x");
    assert_eq!(exclude_file("/repo/.git"), "/repo/.git/info/exclude");
}

#[test]
fn gitdir_pointer_malformed() {
    let r = git_dir_from_pointer("/wt/x", "  nonsense \n");
    assert!(matches!(r, Err(AgentError::InvalidGitDirPointer(ref f, ref t)) if f == "/wt/x/.git" && t == "nonsense"));
    let message = r.err().unwrap().message();
    assert_eq!(message, "invalid gitdir pointer: /wt/x/.git: nonsense");
}

#[test]
fn empty_keys_stay_verbatim_with_values() {
    let out = render_template("a ${ } ${} b ${x}", &pairs(&[("x", "1")]));
    assert_eq!(out, "a ${ } ${} b 1");
    assert!(template_prompts("a ${ } ${} b ${x}", &strings(&["x"])).is_empty());
}

#[test]
fn substitution_is_a_single_pass() {
    assert_eq!(render_template("${a}", &pairs(&[("a", "${b}")])), "${b}");
}
