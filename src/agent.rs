//! How the agent is started: its arguments and environment.
use vstd::prelude::*;

use crate::config::Config;
use crate::text::{chars_of, has_prefix_at, replace_all, replace_text, starts_with, string_views};

verus! {

broadcast use vstd::string::group_string_axioms;

/// Whether `p` occurs in `s`.
pub open spec fn contains_text(s: Seq<char>, p: Seq<char>) -> bool {
    exists|i: int| 0 <= i <= s.len() && starts_with(#[trigger] s.skip(i), p)
}

fn has_text(s: &str, p: &str) -> (r: bool)
    ensures
        r == contains_text(s@, p@),
{
    let cs = chars_of(s);
    let mut i: usize = 0;
    while i < cs.len()
        invariant
            i <= cs@.len(),
            cs@ == s@,
            forall|j: int| 0 <= j < i ==> !starts_with(#[trigger] s@.skip(j), p@),
        decreases cs.len() - i,
    {
        if has_prefix_at(&cs, i, p) {
            return true;
        }
        i = i + 1;
    }
    has_prefix_at(&cs, i, p)
}

/// One argument template with the placeholders filled in, in this order:
/// `{template}`, `{worktree}`, `{branch}`, `{template_content}`.
pub open spec fn expand_arg(
    arg: Seq<char>,
    template: Seq<char>,
    worktree: Seq<char>,
    branch: Seq<char>,
    content: Seq<char>,
) -> Seq<char> {
    replace_all(
        replace_all(
            replace_all(replace_all(arg, "{template}"@, template), "{worktree}"@, worktree),
            "{branch}"@,
            branch,
        ),
        "{template_content}"@,
        content,
    )
}

/// Whether an argument template already hands over the template.
pub open spec fn names_template(arg: Seq<char>) -> bool {
    contains_text(arg, "{template}"@) || contains_text(arg, "{template_content}"@)
}

/// The agent's process: program, arguments, working directory and the
/// variables added to its environment.
pub struct AgentLaunch {
    pub program: String,
    pub args: Vec<String>,
    pub dir: String,
    pub env: Vec<(String, String)>,
}

/// The agent's arguments: each configured one expanded, then the template's
/// content when none of them named the template.
pub open spec fn agent_args_spec(
    args: Seq<Seq<char>>,
    template: Seq<char>,
    worktree: Seq<char>,
    branch: Seq<char>,
    content: Seq<char>,
) -> Seq<Seq<char>> {
    let expanded = args.map_values(|a: Seq<char>| expand_arg(a, template, worktree, branch, content));
    if exists|i: int| 0 <= i < args.len() && names_template(#[trigger] args[i]) {
        expanded
    } else {
        expanded.push(content)
    }
}

/// How to start the agent in `worktree` on `branch` with the rendered
/// template at `template_path`, whose text is `content`.
pub fn agent_launch(cfg: &Config, worktree: &str, branch: &str, template_path: &str, content: &str) -> (r: AgentLaunch)
    ensures
        r.program@ == cfg.agent_command@,
        r.dir@ == worktree@,
        string_views(r.args@) == agent_args_spec(string_views(cfg.agent_args@), template_path@, worktree@, branch@, content@),
        r.env@.len() == 4,
        r.env@[0].0@ == "AGENT_TEMPLATE_PATH"@ && r.env@[0].1@ == template_path@,
        r.env@[1].0@ == "AGENT_WORKTREE_PATH"@ && r.env@[1].1@ == worktree@,
        r.env@[2].0@ == "AGENT_BRANCH_NAME"@ && r.env@[2].1@ == branch@,
        r.env@[3].0@ == "AGENT_TEMPLATE_CONTENT"@ && r.env@[3].1@ == content@,
{
    proof {
        reveal_strlit("{template}");
        reveal_strlit("{worktree}");
        reveal_strlit("{branch}");
        reveal_strlit("{template_content}");
    }
    let ghost cargs = string_views(cfg.agent_args@);
    let mut args: Vec<String> = Vec::new();
    let mut named = false;
    let mut i: usize = 0;
    while i < cfg.agent_args.len()
        invariant
            i <= cfg.agent_args@.len() == cargs.len(),
            cargs == string_views(cfg.agent_args@),
            "{template}"@.len() > 0,
            "{worktree}"@.len() > 0,
            "{branch}"@.len() > 0,
            "{template_content}"@.len() > 0,
            args@.len() == i,
            forall|j: int| 0 <= j < i ==> #[trigger] args@[j]@ == expand_arg(cargs[j], template_path@, worktree@, branch@, content@),
            named == exists|j: int| 0 <= j < i && names_template(#[trigger] cargs[j]),
        decreases cfg.agent_args.len() - i,
    {
        let arg = cfg.agent_args[i].as_str();
        assert(cargs[i as int] == arg@);
        if has_text(arg, "{template}") || has_text(arg, "{template_content}") {
            named = true;
        }
        let a1 = replace_text(arg, "{template}", template_path);
        let a2 = replace_text(a1.as_str(), "{worktree}", worktree);
        let a3 = replace_text(a2.as_str(), "{branch}", branch);
        let a4 = replace_text(a3.as_str(), "{template_content}", content);
        args.push(a4);
        i = i + 1;
    }
    let ghost expanded = cargs.map_values(|a: Seq<char>| expand_arg(a, template_path@, worktree@, branch@, content@));
    assert(string_views(args@) =~= expanded);
    if !named {
        args.push(String::from_str(content));
        assert(string_views(args@) =~= expanded.push(content@));
    }
    let mut env: Vec<(String, String)> = Vec::new();
    env.push((String::from_str("AGENT_TEMPLATE_PATH"), String::from_str(template_path)));
    env.push((String::from_str("AGENT_WORKTREE_PATH"), String::from_str(worktree)));
    env.push((String::from_str("AGENT_BRANCH_NAME"), String::from_str(branch)));
    env.push((String::from_str("AGENT_TEMPLATE_CONTENT"), String::from_str(content)));
    AgentLaunch { program: cfg.agent_command.clone(), args, dir: String::from_str(worktree), env }
}

} // verus!
