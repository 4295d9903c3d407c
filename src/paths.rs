//! Paths as text: `/`-separated, as git prints them.
use vstd::prelude::*;

use crate::text::{chars_of, string_of};

verus! {

/// Index of the last `/` in `p`, or -1.
pub open spec fn last_slash(p: Seq<char>) -> int
    decreases p.len(),
{
    if p.len() == 0 {
        -1
    } else if p.last() == '/' {
        p.len() - 1
    } else {
        last_slash(p.drop_last())
    }
}

pub proof fn lemma_last_slash(p: Seq<char>)
    ensures
        -1 <= last_slash(p) < p.len(),
        last_slash(p) >= 0 ==> p[last_slash(p)] == '/',
        forall|j: int| last_slash(p) < j < p.len() ==> p[j] != '/',
    decreases p.len(),
{
    if p.len() > 0 && p.last() != '/' {
        lemma_last_slash(p.drop_last());
        assert forall|j: int| last_slash(p) < j < p.len() implies p[j] != '/' by {
            if j < p.len() - 1 {
                assert(p[j] == p.drop_last()[j]);
            }
        }
    }
}

/// The last component of `p`: what follows its last `/`, unless that is empty,
/// `.` or `..`.
pub open spec fn file_name(p: Seq<char>) -> Option<Seq<char>> {
    let seg = p.skip(last_slash(p) + 1);
    if seg.len() == 0 || seg == seq!['.'] || seg == seq!['.', '.'] {
        None
    } else {
        Some(seg)
    }
}

/// The directory that holds `p`: everything before its last `/` (the root
/// `/` when that is the first character); the empty path for a bare name;
/// none for the root itself and the empty path.
pub open spec fn parent_dir(p: Seq<char>) -> Option<Seq<char>> {
    let i = last_slash(p);
    if p.len() == 0 || p == seq!['/'] {
        None
    } else if i < 0 {
        Some(Seq::empty())
    } else if i == 0 {
        Some(seq!['/'])
    } else {
        Some(p.take(i))
    }
}

/// `b` placed under `a`, with one `/` between them.
pub open spec fn join_path(a: Seq<char>, b: Seq<char>) -> Seq<char> {
    if a.len() == 0 {
        b
    } else if a.last() == '/' {
        a + b
    } else {
        a + seq!['/'] + b
    }
}

fn last_slash_index(cs: &Vec<char>) -> (r: Option<usize>)
    ensures
        match r {
            Some(i) => i == last_slash(cs@) && i < cs@.len(),
            None => last_slash(cs@) == -1,
        },
{
    proof {
        lemma_last_slash(cs@);
    }
    let mut i: usize = cs.len();
    while i > 0
        invariant
            i <= cs@.len(),
            forall|j: int| i <= j < cs@.len() ==> cs@[j] != '/',
            -1 <= last_slash(cs@) < cs@.len(),
            last_slash(cs@) >= 0 ==> cs@[last_slash(cs@)] == '/',
            forall|j: int| last_slash(cs@) < j < cs@.len() ==> cs@[j] != '/',
        decreases i,
    {
        if cs[i - 1] == '/' {
            return Some(i - 1);
        }
        i = i - 1;
    }
    None
}

/// See `file_name`.
pub fn path_file_name(p: &str) -> (r: Option<String>)
    ensures
        match r {
            Some(s) => file_name(p@) == Some(s@),
            None => file_name(p@) is None,
        },
{
    let cs = chars_of(p);
    let start: usize = match last_slash_index(&cs) {
        Some(i) => i + 1,
        None => 0,
    };
    proof {
        lemma_last_slash(cs@);
    }
    let seg = string_of(&cs, start, cs.len());
    assert(seg@ =~= p@.skip(last_slash(p@) + 1));
    let n: usize = cs.len() - start;
    if n == 0 {
        None
    } else if n == 1 && cs[start] == '.' {
        assert(seg@ =~= seq!['.']);
        None
    } else if n == 2 && cs[start] == '.' && cs[start + 1] == '.' {
        assert(seg@ =~= seq!['.', '.']);
        None
    } else {
        assert(seg@.len() == 1 ==> seg@[0] == cs@[start as int]);
        assert(seg@.len() == 2 ==> seg@[0] == cs@[start as int] && seg@[1] == cs@[start + 1]);
        Some(seg)
    }
}

/// See `parent_dir`.
pub fn path_parent(p: &str) -> (r: Option<String>)
    ensures
        match r {
            Some(s) => parent_dir(p@) == Some(s@),
            None => parent_dir(p@) is None,
        },
{
    let cs = chars_of(p);
    if cs.len() == 0 || (cs.len() == 1 && cs[0] == '/') {
        assert(cs@.len() == 1 ==> cs@ =~= seq![cs@[0]]);
        return None;
    }
    assert(p@ != seq!['/']);
    match last_slash_index(&cs) {
        None => Some(String::new()),
        Some(0) => {
            let mut r = String::new();
            r.push('/');
            assert(r@ =~= seq!['/']);
            Some(r)
        },
        Some(i) => Some(string_of(&cs, 0, i)),
    }
}

/// See `join_path`.
pub fn path_join(a: &str, b: &str) -> (r: String)
    ensures
        r@ == join_path(a@, b@),
{
    let ac = chars_of(a);
    if ac.len() == 0 {
        return String::from_str(b);
    }
    let mut r = String::from_str(a);
    if ac[ac.len() - 1] != '/' {
        r.push('/');
    }
    r.append(b);
    r
}

} // verus!
