//! The repository handle: what git's answers mean, and which git commands
//! the operations run. Running git is left to the caller.
use vstd::prelude::*;

use crate::config::ConfigState;
use crate::error::AgentError;
use crate::paths::{file_name, join_path, parent_dir, path_file_name, path_join, path_parent};
use crate::text::{
    chars_of, has_prefix_at, is_plain_line, lemma_lines_of_text, lines_of, replace_all,
    replace_text, same_text, split_lines, starts_with, string_of, text_of_lines, trim, trim_end,
    trimmed, trimmed_end,
};

verus! {

broadcast use vstd::string::group_string_axioms;

/// A repository: its root directory and the last component of that path.
pub struct GitRepo {
    pub root: String,
    pub name: String,
}

/// One entry of git's worktree listing.
pub struct Worktree {
    pub path: String,
    /// Absent when the worktree is on a detached HEAD.
    pub branch: Option<String>,
    pub locked: bool,
}

/// What a `Worktree` holds.
pub struct WorktreeModel {
    pub path: Seq<char>,
    pub branch: Option<Seq<char>>,
    pub locked: bool,
}

pub open spec fn opt_view(o: Option<String>) -> Option<Seq<char>> {
    match o {
        Some(s) => Some(s@),
        None => None,
    }
}

impl View for Worktree {
    type V = WorktreeModel;

    open spec fn view(&self) -> WorktreeModel {
        WorktreeModel { path: self.path@, branch: opt_view(self.branch), locked: self.locked }
    }
}

pub open spec fn worktree_models(v: Seq<Worktree>) -> Seq<WorktreeModel> {
    v.map_values(|w: Worktree| w@)
}

/// How a finished git command went: its exit status and what it printed.
pub struct GitOutput {
    pub success: bool,
    pub stdout: String,
    pub stderr: String,
}

pub open spec fn strip_prefix(s: Seq<char>, p: Seq<char>) -> Seq<char> {
    if starts_with(s, p) {
        s.skip(p.len() as int)
    } else {
        s
    }
}

/// The branch named on a `branch ` line, without `refs/heads/`.
pub open spec fn branch_of_line(rest: Seq<char>) -> Seq<char> {
    strip_prefix(trim(rest), "refs/heads/"@)
}

/// The record in progress, if it has a path.
pub open spec fn flush(
    path: Option<Seq<char>>,
    branch: Option<Seq<char>>,
    locked: bool,
) -> Seq<WorktreeModel> {
    match path {
        Some(p) => seq![WorktreeModel { path: p, branch, locked }],
        None => Seq::empty(),
    }
}

/// The records of git's porcelain worktree listing, read line by line with a
/// record in progress: `worktree <path>` sets its path, `branch <ref>` its
/// branch, a line starting with `locked` its lock flag; a blank line ends it,
/// as does the end of input; a record without a path is dropped.
pub open spec fn parse_records(
    lines: Seq<Seq<char>>,
    path: Option<Seq<char>>,
    branch: Option<Seq<char>>,
    locked: bool,
) -> Seq<WorktreeModel>
    decreases lines.len(),
{
    if lines.len() == 0 {
        flush(path, branch, locked)
    } else {
        let l = lines[0];
        let rest = lines.drop_first();
        if l.len() == 0 {
            flush(path, branch, locked) + parse_records(rest, None, None, false)
        } else if starts_with(l, "worktree "@) {
            parse_records(rest, Some(l.skip("worktree "@.len() as int)), branch, locked)
        } else if starts_with(l, "branch "@) {
            parse_records(
                rest,
                path,
                Some(branch_of_line(l.skip("branch "@.len() as int))),
                locked,
            )
        } else if starts_with(l, "locked"@) {
            parse_records(rest, path, branch, true)
        } else {
            parse_records(rest, path, branch, locked)
        }
    }
}

pub open spec fn parse_listing(text: Seq<char>) -> Seq<WorktreeModel> {
    parse_records(lines_of(text), None, None, false)
}

fn branch_from_line(cs: &Vec<char>, from: usize) -> (r: String)
    requires
        from <= cs@.len(),
    ensures
        r@ == branch_of_line(cs@.skip(from as int)),
{
    let rest = string_of(cs, from, cs.len());
    let t = trimmed(rest.as_str());
    let tc = chars_of(t.as_str());
    assert(tc@.skip(0) =~= tc@);
    assert(rest@ =~= cs@.skip(from as int));
    if has_prefix_at(&tc, 0, "refs/heads/") {
        let k: usize = "refs/heads/".unicode_len();
        assert(tc@.subrange(k as int, tc@.len() as int) =~= tc@.skip(k as int));
        string_of(&tc, k, tc.len())
    } else {
        t
    }
}

/// Parses git's porcelain worktree listing; see `parse_listing`.
pub fn parse_worktree_list(text: &str) -> (r: Vec<Worktree>)
    ensures
        worktree_models(r@) == parse_listing(text@),
{
    let lines = split_lines(text);
    let ghost ls = lines_of(text@);
    let mut out: Vec<Worktree> = Vec::new();
    let mut path: Option<String> = None;
    let mut branch: Option<String> = None;
    let mut locked = false;
    let mut i: usize = 0;
    assert(ls.skip(0) =~= ls);
    while i < lines.len()
        invariant
            i <= lines@.len() == ls.len(),
            forall|j: int| 0 <= j < lines@.len() ==> #[trigger] lines@[j]@ == ls[j],
            ls == lines_of(text@),
            parse_listing(text@) == worktree_models(out@) + parse_records(
                ls.skip(i as int),
                opt_view(path),
                opt_view(branch),
                locked,
            ),
        decreases lines.len() - i,
    {
        let ghost rest = ls.skip(i as int);
        assert(rest[0] == ls[i as int]);
        assert(rest.drop_first() =~= ls.skip(i + 1));
        let ghost before = worktree_models(out@);
        let cs = chars_of(lines[i].as_str());
        assert(cs@.skip(0) =~= cs@);
        if cs.len() == 0 {
            assert(cs@ =~= Seq::<char>::empty());
            let ghost fl = flush(opt_view(path), opt_view(branch), locked);
            match path {
                Some(p) => {
                    out.push(Worktree { path: p, branch: branch, locked: locked });
                    assert(worktree_models(out@) =~= before + fl);
                },
                None => {
                    assert(worktree_models(out@) =~= before + fl);
                },
            }
            path = None;
            branch = None;
            locked = false;
            assert(before + (fl + parse_records(ls.skip(i + 1), None, None, false)) =~= worktree_models(out@)
                + parse_records(ls.skip(i + 1), None, None, false));
        } else if has_prefix_at(&cs, 0, "worktree ") {
            let k: usize = "worktree ".unicode_len();
            let p = string_of(&cs, k, cs.len());
            assert(p@ =~= cs@.skip(k as int));
            path = Some(p);
        } else if has_prefix_at(&cs, 0, "branch ") {
            let k: usize = "branch ".unicode_len();
            branch = Some(branch_from_line(&cs, k));
        } else if has_prefix_at(&cs, 0, "locked") {
            locked = true;
        }
        i = i + 1;
    }
    assert(ls.skip(i as int) =~= Seq::<Seq<char>>::empty());
    let ghost fl = flush(opt_view(path), opt_view(branch), locked);
    let ghost before = worktree_models(out@);
    if let Some(p) = path {
        out.push(Worktree { path: p, branch: branch, locked: locked });
    }
    assert(worktree_models(out@) =~= before + fl);
    out
}

impl GitRepo {
    /// The repository whose top-level directory `git rev-parse --show-toplevel`
    /// printed: its output without trailing white space, named by its last
    /// component.
    pub fn discover(toplevel: &GitOutput) -> (r: Result<GitRepo, AgentError>)
        ensures
            !toplevel.success ==> r matches Err(AgentError::NotARepository(_)),
            toplevel.success ==> match r {
                Ok(repo) => repo.root@ == trim_end(toplevel.stdout@) && file_name(repo.root@)
                    == Some(repo.name@),
                Err(e) => e is NotARepository && file_name(trim_end(toplevel.stdout@)) is None,
            },
    {
        if !toplevel.success {
            return Err(AgentError::NotARepository(toplevel.stderr.clone()));
        }
        let root = trimmed_end(toplevel.stdout.as_str());
        match path_file_name(root.as_str()) {
            Some(name) => Ok(GitRepo { root, name }),
            None => Err(AgentError::NotARepository(root)),
        }
    }

    /// The directory that holds this repository's worktrees: the configured
    /// pattern with `{repo_name}` and then `{repo_root}` filled in, or else
    /// `<name>-worktree-agents` beside the root.
    pub fn worktree_base(&self, cfg: &ConfigState) -> (r: Result<String, AgentError>)
        ensures
            match cfg.config.worktree_base_override {
                Some(pattern) => r matches Ok(b) && b@ == replace_all(
                    replace_all(pattern@, "{repo_name}"@, self.name@),
                    "{repo_root}"@,
                    self.root@,
                ),
                None => match parent_dir(self.root@) {
                    Some(parent) => r matches Ok(b) && b@ == join_path(
                        parent,
                        self.name@ + "-worktree-agents"@,
                    ),
                    None => r matches Err(AgentError::NoParentDirectory(_)),
                },
            },
    {
        match &cfg.config.worktree_base_override {
            Some(pattern) => {
                proof {
                    reveal_strlit("{repo_name}");
                    reveal_strlit("{repo_root}");
                }
                let named = replace_text(pattern.as_str(), "{repo_name}", self.name.as_str());
                Ok(replace_text(named.as_str(), "{repo_root}", self.root.as_str()))
            },
            None => match path_parent(self.root.as_str()) {
                Some(parent) => {
                    let mut dir = self.name.clone();
                    dir.append("-worktree-agents");
                    Ok(path_join(parent.as_str(), dir.as_str()))
                },
                None => Err(AgentError::NoParentDirectory(self.root.clone())),
            },
        }
    }

    /// The live worktrees, from the output of `git worktree list --porcelain`.
    pub fn list_worktrees(&self, listing: &GitOutput) -> (r: Result<Vec<Worktree>, AgentError>)
        ensures
            listing.success ==> (r matches Ok(v) && worktree_models(v@) == parse_listing(
                listing.stdout@,
            )),
            !listing.success ==> (r matches Err(AgentError::GitCommandFailed(d)) && d@
                == listing.stderr@),
    {
        if !listing.success {
            return Err(AgentError::GitCommandFailed(listing.stderr.clone()));
        }
        Ok(parse_worktree_list(listing.stdout.as_str()))
    }

    /// The checked-out branch, from the output of
    /// `git rev-parse --abbrev-ref HEAD`; none on a detached HEAD or when git
    /// failed.
    pub fn current_branch(&self, head: &GitOutput) -> (r: Option<String>)
        ensures
            match r {
                Some(b) => head.success && b@ == trim(head.stdout@) && b@ != "HEAD"@,
                None => !head.success || trim(head.stdout@) == "HEAD"@,
            },
    {
        if !head.success {
            return None;
        }
        let name = trimmed(head.stdout.as_str());
        if same_text(name.as_str(), "HEAD") {
            None
        } else {
            Some(name)
        }
    }
}

impl Worktree {
    /// A copy of this entry.
    pub fn duplicate(&self) -> (r: Worktree)
        ensures
            r@ == self@,
    {
        let branch = match &self.branch {
            Some(b) => Some(b.clone()),
            None => None,
        };
        Worktree { path: self.path.clone(), branch, locked: self.locked }
    }
}

/// Whether a worktree lies elsewhere than `root`.
pub open spec fn elsewhere_than(root: Seq<char>) -> spec_fn(WorktreeModel) -> bool {
    |w: WorktreeModel| w.path != root
}

/// The worktrees that can be picked: all but the repository's own root, in
/// listing order.
pub fn selectable_worktrees(worktrees: &Vec<Worktree>, root: &str) -> (r: Vec<Worktree>)
    ensures
        worktree_models(r@) == worktree_models(worktrees@).filter(elsewhere_than(root@)),
        forall|i: int| 0 <= i < r@.len() ==> (#[trigger] r@[i])@.path != root@,
{
    let ghost keep = elsewhere_than(root@);
    let mut out: Vec<Worktree> = Vec::new();
    let mut i: usize = 0;
    assert(worktree_models(worktrees@).take(0) =~= Seq::<WorktreeModel>::empty());
    proof {
        reveal(Seq::filter);
    }
    while i < worktrees.len()
        invariant
            i <= worktrees@.len(),
            keep == elsewhere_than(root@),
            worktree_models(out@) == worktree_models(worktrees@).take(i as int).filter(keep),
            forall|j: int| 0 <= j < out@.len() ==> (#[trigger] out@[j])@.path != root@,
        decreases worktrees.len() - i,
    {
        let ghost m = worktree_models(worktrees@);
        assert(m.take(i + 1).drop_last() =~= m.take(i as int));
        assert(m.take(i + 1).last() == worktrees@[i as int]@);
        let ghost before = worktree_models(out@);
        proof {
            reveal(Seq::filter);
        }
        assert(m.take(i + 1).filter(keep) == if keep(m.take(i + 1).last()) {
            m.take(i as int).filter(keep).push(m.take(i + 1).last())
        } else {
            m.take(i as int).filter(keep)
        });
        let ghost w = worktrees@[i as int]@;
        if !same_text(worktrees[i].path.as_str(), root) {
            assert(keep(w));
            out.push(worktrees[i].duplicate());
            assert(worktree_models(out@) =~= before.push(w));
            assert(worktree_models(out@) == m.take(i + 1).filter(keep));
        } else {
            assert(!keep(w));
            assert(worktree_models(out@) == m.take(i + 1).filter(keep));
        }
        i = i + 1;
    }
    assert(worktree_models(worktrees@).take(i as int) =~= worktree_models(worktrees@));
    out
}

/// How an entry is shown for picking: `<branch> - <path>`, with
/// `<detached>` for a detached HEAD and ` [locked]` after a locked one.
pub fn worktree_label(worktree: &Worktree) -> (r: String)
    ensures
        r@ == match worktree.branch {
            Some(b) => b@,
            None => "<detached>"@,
        } + " - "@ + worktree.path@ + if worktree.locked {
            " [locked]"@
        } else {
            Seq::empty()
        },
{
    let mut label = match &worktree.branch {
        Some(b) => b.clone(),
        None => String::from_str("<detached>"),
    };
    label.append(" - ");
    label.append(worktree.path.as_str());
    if worktree.locked {
        label.append(" [locked]");
    }
    assert(label@ =~= match worktree.branch {
        Some(b) => b@,
        None => "<detached>"@,
    } + " - "@ + worktree.path@ + if worktree.locked {
        " [locked]"@
    } else {
        Seq::empty()
    });
    label
}

/// `k` blank lines.
pub open spec fn blank_lines(k: nat) -> Seq<Seq<char>>
    decreases k,
{
    if k == 0 {
        Seq::empty()
    } else {
        seq![Seq::<char>::empty()] + blank_lines((k - 1) as nat)
    }
}

/// Lines of a listing made of the given records, record `i` followed by
/// `gaps[i]` blank lines.
pub open spec fn join_records(groups: Seq<Seq<Seq<char>>>, gaps: Seq<nat>) -> Seq<Seq<char>>
    decreases groups.len(),
{
    if groups.len() == 0 || gaps.len() == 0 {
        Seq::empty()
    } else {
        groups[0] + blank_lines(gaps[0]) + join_records(groups.drop_first(), gaps.drop_first())
    }
}

/// The path a record ends up with: that of its last `worktree ` line, or
/// `path` when it has none.
pub open spec fn last_path(g: Seq<Seq<char>>, path: Option<Seq<char>>) -> Option<Seq<char>>
    decreases g.len(),
{
    if g.len() == 0 {
        path
    } else {
        last_path(
            g.drop_first(),
            if starts_with(g[0], "worktree "@) {
                Some(g[0].skip("worktree "@.len() as int))
            } else {
                path
            },
        )
    }
}

/// The lines of one record: none blank, at least one a `worktree ` line.
pub open spec fn is_record_group(g: Seq<Seq<char>>) -> bool {
    &&& last_path(g, None) is Some
    &&& forall|i: int| 0 <= i < g.len() ==> (#[trigger] g[i]).len() > 0
}

/// Non-blank lines only update the record in progress.
proof fn lemma_consume_record(
    g: Seq<Seq<char>>,
    tail: Seq<Seq<char>>,
    path: Option<Seq<char>>,
    branch: Option<Seq<char>>,
    locked: bool,
) -> (st: (Option<Seq<char>>, Option<Seq<char>>, bool))
    requires
        forall|i: int| 0 <= i < g.len() ==> (#[trigger] g[i]).len() > 0,
    ensures
        parse_records(g + tail, path, branch, locked) == parse_records(tail, st.0, st.1, st.2),
        st.0 == last_path(g, path),
    decreases g.len(),
{
    if g.len() == 0 {
        assert(g + tail =~= tail);
        (path, branch, locked)
    } else {
        let l = g[0];
        let all = g + tail;
        assert(all[0] == l);
        assert(all.drop_first() =~= g.drop_first() + tail);
        assert forall|i: int| 0 <= i < g.drop_first().len() implies (#[trigger] g.drop_first()[i]).len() > 0 by {
            assert(g.drop_first()[i] == g[i + 1]);
        }
        if starts_with(l, "worktree "@) {
            lemma_consume_record(g.drop_first(), tail, Some(l.skip("worktree "@.len() as int)), branch, locked)
        } else if starts_with(l, "branch "@) {
            lemma_consume_record(
                g.drop_first(),
                tail,
                path,
                Some(branch_of_line(l.skip("branch "@.len() as int))),
                locked,
            )
        } else if starts_with(l, "locked"@) {
            lemma_consume_record(g.drop_first(), tail, path, branch, true)
        } else {
            lemma_consume_record(g.drop_first(), tail, path, branch, locked)
        }
    }
}

/// Blank lines between records add nothing.
proof fn lemma_skip_blank_lines(k: nat, rest: Seq<Seq<char>>)
    ensures
        parse_records(blank_lines(k) + rest, None, None, false) == parse_records(rest, None, None, false),
    decreases k,
{
    if k > 0 {
        let all = blank_lines(k) + rest;
        assert(all[0] == Seq::<char>::empty());
        assert(all.drop_first() =~= blank_lines((k - 1) as nat) + rest);
        lemma_skip_blank_lines((k - 1) as nat, rest);
        assert(flush(None, None, false) =~= Seq::<WorktreeModel>::empty());
        assert(parse_records(all, None, None, false) =~= parse_records(rest, None, None, false));
    }
}

proof fn lemma_records_from(groups: Seq<Seq<Seq<char>>>, gaps: Seq<nat>)
    requires
        groups.len() == gaps.len(),
        forall|k: int| 0 <= k < groups.len() ==> is_record_group(#[trigger] groups[k]),
        forall|k: int| 0 <= k < gaps.len() - 1 ==> #[trigger] gaps[k] >= 1,
    ensures
        parse_records(join_records(groups, gaps), None, None, false).len() == groups.len(),
        forall|i: int|
            0 <= i < groups.len() ==> Some(
                (#[trigger] parse_records(join_records(groups, gaps), None, None, false)[i]).path,
            ) == last_path(groups[i], None),
    decreases groups.len(),
{
    if groups.len() > 0 {
        let g = groups[0];
        assert(is_record_group(g));
        let rest_groups = groups.drop_first();
        let rest_gaps = gaps.drop_first();
        assert forall|k: int| 0 <= k < rest_groups.len() implies is_record_group(#[trigger] rest_groups[k]) by {
            assert(rest_groups[k] == groups[k + 1]);
        }
        assert forall|k: int| 0 <= k < rest_gaps.len() - 1 implies #[trigger] rest_gaps[k] >= 1 by {
            assert(rest_gaps[k] == gaps[k + 1]);
        }
        lemma_records_from(rest_groups, rest_gaps);
        let rest = join_records(rest_groups, rest_gaps);
        let tail = blank_lines(gaps[0]) + rest;
        assert(join_records(groups, gaps) =~= g + tail);
        let st = lemma_consume_record(g, tail, None, None, false);
        let p = st.0->0;
        let rec = WorktreeModel { path: p, branch: st.1, locked: st.2 };
        let parsed_rest = parse_records(rest, None, None, false);
        if gaps[0] == 0 {
            assert(groups.len() == 1);
            assert(rest_groups.len() == 0);
            assert(rest =~= Seq::<Seq<char>>::empty());
            assert(tail =~= Seq::<Seq<char>>::empty());
            assert(parse_records(join_records(groups, gaps), None, None, false) =~= seq![rec]);
        } else {
            let k1 = (gaps[0] - 1) as nat;
            assert(tail[0] == Seq::<char>::empty());
            assert(tail.drop_first() =~= blank_lines(k1) + rest);
            lemma_skip_blank_lines(k1, rest);
            assert(parse_records(join_records(groups, gaps), None, None, false) =~= seq![rec] + parsed_rest);
            assert forall|i: int| 0 < i < groups.len() implies Some(
                (#[trigger] parse_records(join_records(groups, gaps), None, None, false)[i]).path,
            ) == last_path(groups[i], None) by {
                assert((seq![rec] + parsed_rest)[i] == parsed_rest[i - 1]);
                assert(groups[i] == rest_groups[i - 1]);
            }
        }
    }
}

/// The text of a listing of `n` records, each made of non-blank plain lines
/// of which at least one is a `worktree ` line, and separated by one or more
/// blank lines (after the last, any number, none included), parses into
/// exactly `n` worktrees, in order, each with the path of its record's last
/// `worktree ` line.
pub proof fn lemma_listing_records(groups: Seq<Seq<Seq<char>>>, gaps: Seq<nat>)
    requires
        groups.len() == gaps.len(),
        forall|k: int| 0 <= k < groups.len() ==> is_record_group(#[trigger] groups[k]),
        forall|k: int| 0 <= k < gaps.len() - 1 ==> #[trigger] gaps[k] >= 1,
        forall|k: int, i: int|
            0 <= k < groups.len() && 0 <= i < groups[k].len() ==> is_plain_line(#[trigger] groups[k][i]),
    ensures
        parse_listing(text_of_lines(join_records(groups, gaps))).len() == groups.len(),
        forall|i: int|
            0 <= i < groups.len() ==> Some((#[trigger] parse_listing(text_of_lines(join_records(groups, gaps)))[i]).path)
                == last_path(groups[i], None),
{
    lemma_join_records_plain(groups, gaps);
    lemma_lines_of_text(join_records(groups, gaps));
    lemma_records_from(groups, gaps);
}

proof fn lemma_blank_lines_plain(k: nat)
    ensures
        forall|i: int| 0 <= i < blank_lines(k).len() ==> #[trigger] blank_lines(k)[i] == Seq::<char>::empty(),
        blank_lines(k).len() == k,
    decreases k,
{
    if k > 0 {
        lemma_blank_lines_plain((k - 1) as nat);
        assert forall|i: int| 0 <= i < blank_lines(k).len() implies #[trigger] blank_lines(k)[i] == Seq::<char>::empty() by {
            if i > 0 {
                assert(blank_lines(k)[i] == blank_lines((k - 1) as nat)[i - 1]);
            }
        }
    }
}

proof fn lemma_join_records_plain(groups: Seq<Seq<Seq<char>>>, gaps: Seq<nat>)
    requires
        forall|k: int, i: int|
            0 <= k < groups.len() && 0 <= i < groups[k].len() ==> is_plain_line(#[trigger] groups[k][i]),
    ensures
        forall|i: int|
            0 <= i < join_records(groups, gaps).len() ==> is_plain_line(#[trigger] join_records(groups, gaps)[i]),
    decreases groups.len(),
{
    if groups.len() > 0 && gaps.len() > 0 {
        let g = groups[0];
        assert forall|k: int, i: int|
            0 <= k < groups.drop_first().len() && 0 <= i < groups.drop_first()[k].len() implies is_plain_line(
            #[trigger] groups.drop_first()[k][i],
        ) by {
            assert(groups.drop_first()[k] == groups[k + 1]);
        }
        lemma_join_records_plain(groups.drop_first(), gaps.drop_first());
        lemma_blank_lines_plain(gaps[0]);
        let b = blank_lines(gaps[0]);
        let rest = join_records(groups.drop_first(), gaps.drop_first());
        let j = join_records(groups, gaps);
        assert(j =~= g + b + rest);
        assert forall|i: int| 0 <= i < j.len() implies is_plain_line(#[trigger] j[i]) by {
            if i < g.len() {
                assert(j[i] == groups[0][i]);
            } else if i < g.len() + b.len() {
                assert(j[i] == b[i - g.len()]);
            } else {
                assert(j[i] == rest[i - g.len() - b.len()]);
            }
        }
    }
}

} // verus!
