//! Where templates come from, which one is used, and where the rendered one
//! goes in a worktree.
use vstd::multiset::Multiset;
use vstd::prelude::*;

use crate::error::AgentError;
use crate::paths::{file_name, join_path, path_file_name, path_join};
use crate::text::{
    chars_of, has_prefix_at, lines_of, same_text, split_lines, starts_with, string_of,
    string_views, trim, trimmed,
};

verus! {

broadcast use {vstd::string::group_string_axioms, vstd::seq_lib::group_to_multiset_ensures};

/// Name of the rendered template inside a worktree.
pub const TEMPLATE_FILENAME: &'static str = ".agent-template";

/// Directory of a project's own templates, under its root.
pub const PROJECT_TEMPLATES_DIR: &'static str = ".agent-templates";

/// `a` before or equal to `b`, comparing characters by code point, a prefix
/// first: the order of `str`'s `Ord`.
pub open spec fn text_le(a: Seq<char>, b: Seq<char>) -> bool
    decreases a.len(),
{
    if a.len() == 0 {
        true
    } else if b.len() == 0 {
        false
    } else if a[0] != b[0] {
        a[0] < b[0]
    } else {
        text_le(a.drop_first(), b.drop_first())
    }
}

proof fn lemma_text_le_total(a: Seq<char>, b: Seq<char>)
    ensures
        text_le(a, b) || text_le(b, a),
    decreases a.len(),
{
    if a.len() > 0 && b.len() > 0 && a[0] == b[0] {
        lemma_text_le_total(a.drop_first(), b.drop_first());
    }
}

proof fn lemma_text_le_trans(a: Seq<char>, b: Seq<char>, c: Seq<char>)
    requires
        text_le(a, b),
        text_le(b, c),
    ensures
        text_le(a, c),
    decreases a.len(),
{
    if a.len() > 0 && b.len() > 0 && c.len() > 0 && a[0] == b[0] && b[0] == c[0] {
        lemma_text_le_trans(a.drop_first(), b.drop_first(), c.drop_first());
    }
}

pub open spec fn is_sorted(s: Seq<Seq<char>>) -> bool {
    forall|i: int, j: int| 0 <= i < j < s.len() ==> text_le(#[trigger] s[i], #[trigger] s[j])
}

fn le_text(a: &str, b: &str) -> (r: bool)
    ensures
        r == text_le(a@, b@),
{
    let ac = chars_of(a);
    let bc = chars_of(b);
    let mut i: usize = 0;
    assert(a@.skip(0) =~= a@);
    assert(b@.skip(0) =~= b@);
    while i < ac.len() && i < bc.len() && ac[i] == bc[i]
        invariant
            i <= ac@.len(),
            i <= bc@.len(),
            ac@ == a@,
            bc@ == b@,
            text_le(a@, b@) == text_le(a@.skip(i as int), b@.skip(i as int)),
        decreases ac.len() - i,
    {
        assert(a@.skip(i as int).drop_first() =~= a@.skip(i + 1));
        assert(b@.skip(i as int).drop_first() =~= b@.skip(i + 1));
        i = i + 1;
    }
    assert(a@.skip(0) =~= a@);
    if i == ac.len() {
        true
    } else if i == bc.len() {
        false
    } else {
        assert(a@.skip(i as int)[0] == ac@[i as int]);
        assert(b@.skip(i as int)[0] == bc@[i as int]);
        ac[i] < bc[i]
    }
}

/// `names` in ascending order.
pub fn sort_texts(names: Vec<String>) -> (r: Vec<String>)
    ensures
        is_sorted(string_views(r@)),
        string_views(r@).to_multiset() == string_views(names@).to_multiset(),
{
    let mut out: Vec<String> = Vec::new();
    let mut rest = names;
    let ghost all = string_views(rest@);
    assert(string_views(out@) =~= Seq::<Seq<char>>::empty());
    while rest.len() > 0
        invariant
            is_sorted(string_views(out@)),
            string_views(out@).to_multiset().add(string_views(rest@).to_multiset()) == all.to_multiset(),
        decreases rest.len(),
    {
        let ghost before_rest = string_views(rest@);
        let x = rest.pop().unwrap();
        assert(before_rest =~= string_views(rest@).push(x@));
        let ghost o = string_views(out@);
        let mut p: usize = 0;
        while p < out.len() && le_text(out[p].as_str(), x.as_str())
            invariant
                p <= out@.len(),
                o == string_views(out@),
                forall|i: int| 0 <= i < p ==> text_le(#[trigger] o[i], x@),
            decreases out.len() - p,
        {
            p = p + 1;
        }
        proof {
            if p < o.len() {
                assert(!text_le(o[p as int], x@));
                lemma_text_le_total(o[p as int], x@);
            }
        }
        out.insert(p, x);
        let ghost n = string_views(out@);
        proof {
            assert(n =~= o.insert(p as int, x@));
            o.insert_ensures(p as int, x@);
            assert forall|i: int, j: int| 0 <= i < j < n.len() implies text_le(#[trigger] n[i], #[trigger] n[j]) by {
                if j < p {
                } else if j == p {
                } else if i < p {
                    assert(n[j] == o[j - 1]);
                    assert(text_le(o[p as int], o[j - 1]) || p == j - 1);
                    if p < j - 1 {
                        lemma_text_le_trans(x@, o[p as int], o[j - 1]);
                    }
                    lemma_text_le_trans(o[i], x@, o[j - 1]);
                } else if i == p {
                    assert(n[j] == o[j - 1]);
                    if p < j - 1 {
                        lemma_text_le_trans(x@, o[p as int], o[j - 1]);
                    }
                } else {
                    assert(n[i] == o[i - 1]);
                    assert(n[j] == o[j - 1]);
                }
            }
            assert(n.remove(p as int) =~= o);
            assert(n.remove(p as int).to_multiset() =~= n.to_multiset().remove(x@));
            assert(n.contains(x@));
            assert(n.to_multiset() =~= o.to_multiset().insert(x@));
            assert(before_rest.to_multiset() =~= string_views(rest@).to_multiset().insert(x@));
            assert(n.to_multiset().add(string_views(rest@).to_multiset()) =~= all.to_multiset());
        }
    }
    assert(string_views(rest@).to_multiset() =~= Multiset::empty());
    assert(string_views(out@).to_multiset().add(Multiset::empty()) =~= string_views(out@).to_multiset());
    out
}

/// A project's own templates, in ascending order; none when the project has
/// no template directory (`files` is none) or it holds no file.
pub fn project_templates(files: Option<Vec<String>>) -> (r: Option<Vec<String>>)
    ensures
        match files {
            Some(f) if f@.len() > 0 => (r matches Some(t) && is_sorted(string_views(t@))
                && string_views(t@).to_multiset() == string_views(f@).to_multiset()),
            _ => r is None,
        },
{
    match files {
        Some(f) => {
            if f.len() > 0 {
                Some(sort_texts(f))
            } else {
                None
            }
        },
        None => None,
    }
}

/// The templates offered: the project's own when it has any, else the
/// global ones, in ascending order either way. `project` is none when the
/// project has no template directory.
pub fn available_templates(project: Option<Vec<String>>, global: Vec<String>) -> (r: Vec<String>)
    ensures
        is_sorted(string_views(r@)),
        match project {
            Some(p) if p@.len() > 0 => string_views(r@).to_multiset() == string_views(p@).to_multiset(),
            _ => string_views(r@).to_multiset() == string_views(global@).to_multiset(),
        },
{
    match project_templates(project) {
        Some(t) => t,
        None => sort_texts(global),
    }
}

/// What choosing among the offered templates comes to.
pub enum TemplateChoice {
    /// Nothing to choose from: the flow stops without an error.
    NoTemplate,
    /// A single template, taken without asking.
    Only(String),
    /// Several: the user picks one by name.
    Ask,
}

pub fn choose_template(templates: &Vec<String>) -> (r: TemplateChoice)
    ensures
        templates@.len() == 0 <==> r is NoTemplate,
        templates@.len() == 1 <==> r is Only,
        templates@.len() > 1 <==> r is Ask,
        r matches TemplateChoice::Only(t) ==> t@ == templates@[0]@,
{
    if templates.len() == 0 {
        TemplateChoice::NoTemplate
    } else if templates.len() == 1 {
        TemplateChoice::Only(templates[0].clone())
    } else {
        TemplateChoice::Ask
    }
}

/// The names shown when the user picks a template: each one's file name,
/// or nothing where it has none.
pub fn template_names(templates: &Vec<String>) -> (r: Vec<String>)
    ensures
        r@.len() == templates@.len(),
        forall|i: int| 0 <= i < r@.len() ==> #[trigger] r@[i]@ == match file_name(templates@[i]@) {
            Some(n) => n,
            None => Seq::empty(),
        },
{
    let mut r: Vec<String> = Vec::new();
    let mut i: usize = 0;
    while i < templates.len()
        invariant
            i <= templates@.len(),
            r@.len() == i,
            forall|j: int| 0 <= j < i ==> #[trigger] r@[j]@ == match file_name(templates@[j]@) {
                Some(n) => n,
                None => Seq::empty(),
            },
        decreases templates.len() - i,
    {
        let name = match path_file_name(templates[i].as_str()) {
            Some(n) => n,
            None => String::new(),
        };
        r.push(name);
        i = i + 1;
    }
    r
}

/// Where the rendered template of a worktree lives.
pub fn template_destination(worktree: &str) -> (r: String)
    ensures
        r@ == join_path(worktree@, TEMPLATE_FILENAME@),
{
    path_join(worktree, TEMPLATE_FILENAME)
}

/// The directory of a project's own templates.
pub fn project_templates_dir(project_root: &str) -> (r: String)
    ensures
        r@ == join_path(project_root@, PROJECT_TEMPLATES_DIR@),
{
    path_join(project_root, PROJECT_TEMPLATES_DIR)
}

/// A line of an exclude file that already names the template.
pub open spec fn is_entry(line: Seq<char>) -> bool {
    trim(line) == TEMPLATE_FILENAME@ || trim(line) == "./"@ + TEMPLATE_FILENAME@
}

/// How many lines name the template.
pub open spec fn entry_count(lines: Seq<Seq<char>>) -> nat
    decreases lines.len(),
{
    if lines.len() == 0 {
        0
    } else {
        entry_count(lines.drop_last()) + if is_entry(lines.last()) {
            1nat
        } else {
            0nat
        }
    }
}

/// What is appended to an exclude file so that it names the template: nothing
/// when a line names it already; else the name on a line of its own, after a
/// line break when the file does not end with one.
pub open spec fn exclude_addition(existing: Seq<char>) -> Seq<char> {
    if entry_count(lines_of(existing)) > 0 {
        Seq::empty()
    } else if existing.len() > 0 && existing.last() != '\n' {
        seq!['\n'] + TEMPLATE_FILENAME@ + seq!['\n']
    } else {
        TEMPLATE_FILENAME@ + seq!['\n']
    }
}

fn line_is_entry(line: &str) -> (r: bool)
    ensures
        r == is_entry(line@),
{
    let t = trimmed(line);
    let mut alt = String::from_str("./");
    alt.append(TEMPLATE_FILENAME);
    proof {
        reveal_strlit("./");
    }
    same_text(t.as_str(), TEMPLATE_FILENAME) || same_text(t.as_str(), alt.as_str())
}

/// See `exclude_addition`.
pub fn template_exclude_addition(existing: &str) -> (r: String)
    ensures
        r@ == exclude_addition(existing@),
{
    let lines = split_lines(existing);
    let ghost ls = lines_of(existing@);
    let mut present = false;
    let mut i: usize = 0;
    assert(ls.take(0) =~= Seq::<Seq<char>>::empty());
    while i < lines.len()
        invariant
            i <= lines@.len() == ls.len(),
            ls == lines_of(existing@),
            forall|j: int| 0 <= j < lines@.len() ==> #[trigger] lines@[j]@ == ls[j],
            present == (entry_count(ls.take(i as int)) > 0),
        decreases lines.len() - i,
    {
        assert(ls.take(i + 1).drop_last() =~= ls.take(i as int));
        assert(ls.take(i + 1).last() == lines@[i as int]@);
        if line_is_entry(lines[i].as_str()) {
            present = true;
        }
        i = i + 1;
    }
    assert(ls.take(i as int) =~= ls);
    if present {
        return String::new();
    }
    let cs = chars_of(existing);
    let mut r = String::new();
    if cs.len() > 0 && cs[cs.len() - 1] != '\n' {
        r.push('\n');
    }
    r.append(TEMPLATE_FILENAME);
    r.push('\n');
    r
}

proof fn lemma_entry_count_concat(x: Seq<Seq<char>>, y: Seq<Seq<char>>)
    ensures
        entry_count(x + y) == entry_count(x) + entry_count(y),
    decreases y.len(),
{
    if y.len() == 0 {
        assert(x + y =~= x);
    } else {
        assert((x + y).drop_last() =~= x + y.drop_last());
        assert((x + y).last() == y.last());
        lemma_entry_count_concat(x, y.drop_last());
    }
}

/// Ending the last line does not change which lines name the template.
proof fn lemma_entry_count_line_end(s: Seq<char>)
    requires
        s.len() > 0,
        s.last() != '\n',
    ensures
        entry_count(lines_of(s + seq!['\n'])) == entry_count(lines_of(s)),
    decreases s.len(),
{
    let t = s + seq!['\n'];
    crate::text::lemma_newline_index_bound(s);
    let k = crate::text::newline_index(s);
    if k < s.len() {
        assert forall|j: int| 0 <= j < k implies t[j] != '\n' by {
            assert(t[j] == s[j]);
        }
        crate::text::lemma_newline_index(t, k);
        assert(t.take(k) =~= s.take(k));
        let rest = s.skip(k + 1);
        assert(rest.len() > 0) by {
            if rest.len() == 0 {
                assert(k == s.len() - 1);
            }
        }
        assert(rest.last() == s.last());
        assert(t.skip(k + 1) =~= rest + seq!['\n']);
        lemma_entry_count_line_end(rest);
        let first = seq![crate::text::line_body(s.take(k), true)];
        assert(lines_of(t) == first + lines_of(rest + seq!['\n']));
        assert(lines_of(s) == first + lines_of(rest));
        lemma_entry_count_concat(first, lines_of(rest + seq!['\n']));
        lemma_entry_count_concat(first, lines_of(rest));
    } else {
        assert forall|j: int| 0 <= j < s.len() implies t[j] != '\n' by {
            assert(t[j] == s[j]);
        }
        crate::text::lemma_newline_index(t, s.len() as int);
        assert(t.take(s.len() as int) =~= s);
        assert(t.skip(s.len() as int + 1) =~= Seq::<char>::empty());
        assert(lines_of(Seq::<char>::empty()) =~= Seq::<Seq<char>>::empty());
        let body = crate::text::line_body(s, true);
        assert(lines_of(t) =~= seq![body]);
        assert(lines_of(s) =~= seq![s]);
        if s.last() == '\r' {
            assert(s =~= s.drop_last().push('\r'));
            crate::text::lemma_trim_push_white(s.drop_last(), '\r');
        }
        assert(seq![body].drop_last() =~= Seq::<Seq<char>>::empty());
        assert(seq![s].drop_last() =~= Seq::<Seq<char>>::empty());
    }
}

/// Registering the template in an exclude file twice leaves the file as the
/// first registration left it, and a file that did not name the template
/// then names it exactly once.
pub proof fn lemma_exclude_idempotent(existing: Seq<char>)
    ensures
        exclude_addition(existing + exclude_addition(existing)) == Seq::<char>::empty(),
        entry_count(lines_of(existing)) == 0 ==> entry_count(lines_of(existing + exclude_addition(existing))) == 1,
{
    let add = exclude_addition(existing);
    let once = existing + add;
    if entry_count(lines_of(existing)) > 0 {
        assert(once =~= existing);
    } else {
        let name = TEMPLATE_FILENAME@;
        let entry = name + seq!['\n'];
        reveal_strlit(".agent-template");
        assert forall|j: int| 0 <= j < name.len() implies entry[j] != '\n' by {}
        crate::text::lemma_newline_index(entry, name.len() as int);
        assert(entry.take(name.len() as int) =~= name);
        assert(entry.skip(name.len() as int + 1) =~= Seq::<char>::empty());
        assert(lines_of(Seq::<char>::empty()) =~= Seq::<Seq<char>>::empty());
        assert(lines_of(entry) =~= seq![name]);
        let head = if existing.len() > 0 && existing.last() != '\n' {
            existing + seq!['\n']
        } else {
            existing
        };
        assert(once =~= head + entry);
        if existing.len() > 0 && existing.last() != '\n' {
            lemma_entry_count_line_end(existing);
        }
        crate::text::lemma_lines_concat(head, entry);
        assert(trim(name) == name) by {
            assert(!crate::text::is_white(name[0]));
            assert(!crate::text::is_white(name.last()));
        }
        lemma_entry_count_concat(lines_of(head), seq![name]);
        assert(seq![name].drop_last() =~= Seq::<Seq<char>>::empty());
        assert(entry_count(lines_of(head)) == 0);
        assert(is_entry(name));
        assert(entry_count(Seq::<Seq<char>>::empty()) == 0);
        assert(seq![name].last() == name);
        assert(entry_count(seq![name]) == 1);
        assert(lines_of(once) == lines_of(head) + seq![name]);
        assert(entry_count(lines_of(once)) == 1);
        assert(once.last() == '\n');
    }
}

/// The git directory that a worktree's `.git` file points to: the file holds
/// `gitdir: <path>` (white space around either part is ignored), and a
/// relative path is taken from the worktree; none for anything else.
pub open spec fn pointed_git_dir(worktree: Seq<char>, pointer: Seq<char>) -> Option<Seq<char>> {
    let t = trim(pointer);
    if starts_with(t, "gitdir:"@) {
        let p = trim(t.skip("gitdir:"@.len() as int));
        if p.len() > 0 && p[0] == '/' {
            Some(p)
        } else {
            Some(join_path(worktree, p))
        }
    } else {
        None
    }
}

/// See `pointed_git_dir`; a malformed pointer is an error that names the
/// `.git` file and quotes its content.
pub fn git_dir_from_pointer(worktree: &str, pointer: &str) -> (r: Result<String, AgentError>)
    ensures
        match pointed_git_dir(worktree@, pointer@) {
            Some(d) => r matches Ok(g) && g@ == d,
            None => r matches Err(AgentError::InvalidGitDirPointer(f, t)) && f@ == join_path(worktree@, ".git"@)
                && t@ == trim(pointer@),
        },
{
    let t = trimmed(pointer);
    let tc = chars_of(t.as_str());
    assert(tc@.skip(0) =~= tc@);
    if !has_prefix_at(&tc, 0, "gitdir:") {
        return Err(AgentError::InvalidGitDirPointer(path_join(worktree, ".git"), t));
    }
    let k: usize = "gitdir:".unicode_len();
    let after = string_of(&tc, k, tc.len());
    assert(after@ =~= t@.skip(k as int));
    let p = trimmed(after.as_str());
    let pc = chars_of(p.as_str());
    if pc.len() > 0 && pc[0] == '/' {
        Ok(p)
    } else {
        Ok(path_join(worktree, p.as_str()))
    }
}

/// The exclude file under a git directory: `info/exclude`.
pub fn exclude_file(git_dir: &str) -> (r: String)
    ensures
        r@ == join_path(join_path(git_dir@, "info"@), "exclude"@),
{
    let info = path_join(git_dir, "info");
    path_join(info.as_str(), "exclude")
}

} // verus!
