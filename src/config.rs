//! The user's settings, as one value built at start-up and handed to every
//! part that needs it.
use vstd::prelude::*;

use crate::text::{trim, trimmed};

verus! {

/// Settings of the agent, the editor and the integration branch.
pub struct Config {
    /// Program started as the agent.
    pub agent_command: String,
    /// Argument templates handed to the agent; see `agent::agent_arguments`.
    pub agent_args: Vec<String>,
    /// Branch that finished work is merged into.
    pub merge_target: String,
    /// Program used to edit a rendered template.
    pub template_editor: String,
    /// Name shown for the agent.
    pub agent_display_name: String,
    /// Pattern for the directory that holds the worktrees, with
    /// `{repo_name}` and `{repo_root}` as placeholders.
    pub worktree_base_override: Option<String>,
}

impl Default for Config {
    fn default() -> (r: Config)
        ensures
            r.agent_command@ == "codex"@,
            r.agent_args@.len() == 1,
            r.agent_args@[0]@ == "{template_content}"@,
            r.merge_target@ == "main"@,
            r.template_editor@ == "vim"@,
            r.agent_display_name@ == "Codex"@,
            r.worktree_base_override is None,
    {
        let mut args: Vec<String> = Vec::new();
        args.push(String::from_str("{template_content}"));
        Config {
            agent_command: String::from_str("codex"),
            agent_args: args,
            merge_target: String::from_str("main"),
            template_editor: String::from_str("vim"),
            agent_display_name: String::from_str("Codex"),
            worktree_base_override: None,
        }
    }
}

/// The template written to the global store when it holds no `default.md`.
pub const DEFAULT_TEMPLATE: &'static str = "# Feature goal\n\n- Summarize the work at a high level.\n- List the main constraints.\n\n# Notes for the agent\n\n- Stay concise.\n- Suggest useful tests.\n\n";

/// Whether a settings file holds nothing but white space, and so stands
/// for the defaults.
pub fn is_blank(text: &str) -> (r: bool)
    ensures
        r == (trim(text@).len() == 0),
{
    trimmed(text).unicode_len() == 0
}

/// The settings together with the directory of the global templates.
pub struct ConfigState {
    pub config: Config,
    pub templates_dir: String,
}

} // verus!
