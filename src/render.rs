//! Task templates: `${name}` placeholders, which of them the user is asked
//! for, and the substitution.
use vstd::prelude::*;

use crate::text::{same_text, string_views, trim, trimmed};

verus! {

broadcast use vstd::string::group_string_axioms;

/// regex's error for a pattern that cannot be built, carried without looking
/// inside.
#[verifier::external_type_specification]
#[verifier::external_body]
pub struct ExRegexError(regex::Error);

/// Text of a template up to a placeholder, and the placeholder's inner text.
pub struct Piece {
    pub before: String,
    pub inner: String,
}

/// A template cut at its placeholders: each piece ends with one, and the tail
/// follows the last.
pub struct Placeholders {
    pub pieces: Vec<Piece>,
    pub tail: String,
}

impl View for Piece {
    type V = (Seq<char>, Seq<char>);

    open spec fn view(&self) -> (Seq<char>, Seq<char>) {
        (self.before@, self.inner@)
    }
}

pub open spec fn piece_views(v: Seq<Piece>) -> Seq<(Seq<char>, Seq<char>)> {
    v.map_values(|p: Piece| p@)
}

/// Index of the first `}` in `s`, or its length.
pub open spec fn close_index(s: Seq<char>) -> int
    decreases s.len(),
{
    if s.len() == 0 || s[0] == '}' {
        0
    } else {
        1 + close_index(s.drop_first())
    }
}

/// The length of the inner text of the placeholder at the front of `s`
/// (`${`, one or more characters other than `}`, then `}`), or 0 when there is
/// none.
pub open spec fn inner_len_at(s: Seq<char>) -> int {
    if s.len() >= 2 && s[0] == '$' && s[1] == '{' && 0 < close_index(s.skip(2)) < s.len() - 2 {
        close_index(s.skip(2))
    } else {
        0
    }
}

/// The matches of `\$\{([^}]+)\}` in `s`, leftmost first and without overlap:
/// for each, the text before it and its inner text; then the text after the
/// last.
pub open spec fn scan(s: Seq<char>) -> (Seq<(Seq<char>, Seq<char>)>, Seq<char>)
    decreases s.len(),
{
    if s.len() == 0 {
        (Seq::empty(), Seq::empty())
    } else {
        let n = inner_len_at(s);
        if n > 0 {
            let rest = scan(s.skip(n + 3));
            (seq![(Seq::<char>::empty(), s.subrange(2, n + 2))] + rest.0, rest.1)
        } else {
            let rest = scan(s.drop_first());
            if rest.0.len() == 0 {
                (rest.0, seq![s[0]] + rest.1)
            } else {
                (rest.0.update(0, (seq![s[0]] + rest.0[0].0, rest.0[0].1)), rest.1)
            }
        }
    }
}

/// A placeholder: `${`, one or more characters other than `}`, then `}`.
pub const PLACEHOLDER_PATTERN: &'static str = r"\$\{([^}]+)\}";

/// Relies on regex's `Regex::new` and `Regex::captures_iter`: the placeholder
/// pattern matched over `content`, leftmost first and without overlap, each
/// match with the text before it and its first group.
#[verifier::external_body]
fn find_placeholders(pattern: &str, content: &str) -> (r: Result<Placeholders, regex::Error>)
    requires
        pattern@ == PLACEHOLDER_PATTERN@,
    ensures
        r is Ok,
        r matches Ok(p) ==> piece_views(p.pieces@) == scan(content@).0 && p.tail@ == scan(content@).1,
{
    let re = regex::Regex::new(pattern)?;
    let mut pieces = Vec::new();
    let mut last: usize = 0;
    for caps in re.captures_iter(content) {
        let whole = caps.get_match();
        pieces.push(Piece { before: content[last..whole.start()].to_string(), inner: caps[1].to_string() });
        last = whole.end();
    }
    Ok(Placeholders { pieces, tail: content[last..].to_string() })
}

/// The placeholders of `content`.
pub fn placeholders(content: &str) -> (r: Placeholders)
    ensures
        piece_views(r.pieces@) == scan(content@).0,
        r.tail@ == scan(content@).1,
{
    match find_placeholders(PLACEHOLDER_PATTERN, content) {
        Ok(p) => p,
        Err(_) => {
            proof {
                assert(false);
            }
            Placeholders { pieces: Vec::new(), tail: String::new() }
        },
    }
}

/// The keys, in order of first occurrence and each once, that are neither
/// empty nor among `auto`: those the user is asked for.
pub open spec fn collect_keys(
    inners: Seq<Seq<char>>,
    auto: Seq<Seq<char>>,
    acc: Seq<Seq<char>>,
) -> Seq<Seq<char>>
    decreases inners.len(),
{
    if inners.len() == 0 {
        acc
    } else {
        let k = trim(inners[0]);
        let acc2 = if k.len() == 0 || auto.contains(k) || acc.contains(k) {
            acc
        } else {
            acc.push(k)
        };
        collect_keys(inners.drop_first(), auto, acc2)
    }
}

pub open spec fn inners_of(pieces: Seq<(Seq<char>, Seq<char>)>) -> Seq<Seq<char>> {
    pieces.map_values(|p: (Seq<char>, Seq<char>)| p.1)
}

/// The keys of `content` that need a value from the user.
pub open spec fn prompt_keys(content: Seq<char>, auto: Seq<Seq<char>>) -> Seq<Seq<char>> {
    collect_keys(inners_of(scan(content).0), auto, Seq::empty())
}

fn contains_text(v: &Vec<String>, k: &str) -> (r: bool)
    ensures
        r == string_views(v@).contains(k@),
{
    let mut i: usize = 0;
    while i < v.len()
        invariant
            i <= v@.len(),
            forall|j: int| 0 <= j < i ==> v@[j]@ != k@,
        decreases v.len() - i,
    {
        if same_text(v[i].as_str(), k) {
            assert(string_views(v@)[i as int] == k@);
            return true;
        }
        i = i + 1;
    }
    assert forall|j: int| 0 <= j < string_views(v@).len() implies string_views(v@)[j] != k@ by {
        assert(string_views(v@)[j] == v@[j]@);
    }
    false
}

/// The keys the user is asked for, given the keys of the automatic
/// variables; see `prompt_keys`.
pub fn keys_to_prompt(found: &Placeholders, auto_keys: &Vec<String>) -> (r: Vec<String>)
    ensures
        string_views(r@) == collect_keys(inners_of(piece_views(found.pieces@)), string_views(auto_keys@), Seq::empty()),
{
    let ghost inners = inners_of(piece_views(found.pieces@));
    let ghost auto = string_views(auto_keys@);
    let mut out: Vec<String> = Vec::new();
    let mut i: usize = 0;
    assert(inners.skip(0) =~= inners);
    assert(string_views(out@) =~= Seq::<Seq<char>>::empty());
    while i < found.pieces.len()
        invariant
            i <= found.pieces@.len() == inners.len(),
            inners == inners_of(piece_views(found.pieces@)),
            auto == string_views(auto_keys@),
            collect_keys(inners, auto, Seq::empty()) == collect_keys(inners.skip(i as int), auto, string_views(out@)),
        decreases found.pieces.len() - i,
    {
        assert(inners.skip(i as int).drop_first() =~= inners.skip(i + 1));
        assert(inners.skip(i as int)[0] == found.pieces@[i as int].inner@);
        let k = trimmed(found.pieces[i].inner.as_str());
        let ghost before = string_views(out@);
        if k.unicode_len() != 0 && !contains_text(auto_keys, k.as_str()) && !contains_text(&out, k.as_str()) {
            out.push(k);
            assert(string_views(out@) =~= before.push(k@));
        }
        i = i + 1;
    }
    assert(inners.skip(i as int) =~= Seq::<Seq<char>>::empty());
    out
}

/// The keys of `content` the user is asked for.
pub fn template_prompts(content: &str, auto_keys: &Vec<String>) -> (r: Vec<String>)
    ensures
        string_views(r@) == prompt_keys(content@, string_views(auto_keys@)),
{
    keys_to_prompt(&placeholders(content), auto_keys)
}

/// The placeholder around an inner text.
pub open spec fn wrap(inner: Seq<char>) -> Seq<char> {
    seq!['$', '{'] + inner + seq!['}']
}

/// The value of the first pair whose key is `k`.
pub open spec fn lookup(values: Seq<(Seq<char>, Seq<char>)>, k: Seq<char>) -> Option<Seq<char>>
    decreases values.len(),
{
    if values.len() == 0 {
        None
    } else if values[0].0 == k {
        Some(values[0].1)
    } else {
        lookup(values.drop_first(), k)
    }
}

/// A placeholder replaced by the value of its trimmed key, or kept as it is.
pub open spec fn substitute(inner: Seq<char>, values: Seq<(Seq<char>, Seq<char>)>) -> Seq<char> {
    match lookup(values, trim(inner)) {
        Some(v) => v,
        None => wrap(inner),
    }
}

pub open spec fn render_pieces(
    pieces: Seq<(Seq<char>, Seq<char>)>,
    tail: Seq<char>,
    values: Seq<(Seq<char>, Seq<char>)>,
) -> Seq<char>
    decreases pieces.len(),
{
    if pieces.len() == 0 {
        tail
    } else {
        pieces[0].0 + substitute(pieces[0].1, values) + render_pieces(pieces.drop_first(), tail, values)
    }
}

/// `content` with every placeholder whose key has a value replaced by it.
pub open spec fn rendered(content: Seq<char>, values: Seq<(Seq<char>, Seq<char>)>) -> Seq<char> {
    render_pieces(scan(content).0, scan(content).1, values)
}

pub open spec fn pair_views(v: Seq<(String, String)>) -> Seq<(Seq<char>, Seq<char>)> {
    v.map_values(|p: (String, String)| (p.0@, p.1@))
}

fn lookup_value(values: &Vec<(String, String)>, k: &str) -> (r: Option<String>)
    ensures
        opt_text(r) == lookup(pair_views(values@), k@),
{
    let ghost vs = pair_views(values@);
    let mut i: usize = 0;
    assert(vs.skip(0) =~= vs);
    while i < values.len()
        invariant
            i <= values@.len() == vs.len(),
            vs == pair_views(values@),
            lookup(vs, k@) == lookup(vs.skip(i as int), k@),
        decreases values.len() - i,
    {
        assert(vs.skip(i as int).drop_first() =~= vs.skip(i + 1));
        assert(vs.skip(i as int)[0] == (values@[i as int].0@, values@[i as int].1@));
        if same_text(values[i].0.as_str(), k) {
            return Some(values[i].1.clone());
        }
        i = i + 1;
    }
    None
}

pub open spec fn opt_text(o: Option<String>) -> Option<Seq<char>> {
    match o {
        Some(s) => Some(s@),
        None => None,
    }
}

/// Substitutes the values into a template cut at its placeholders; see
/// `render_pieces`.
pub fn render_found(found: &Placeholders, values: &Vec<(String, String)>) -> (r: String)
    ensures
        r@ == render_pieces(piece_views(found.pieces@), found.tail@, pair_views(values@)),
{
    let ghost ps = piece_views(found.pieces@);
    let ghost vs = pair_views(values@);
    let mut out = String::new();
    let mut i: usize = 0;
    assert(ps.skip(0) =~= ps);
    assert(out@ + render_pieces(ps, found.tail@, vs) =~= render_pieces(ps, found.tail@, vs));
    while i < found.pieces.len()
        invariant
            i <= found.pieces@.len() == ps.len(),
            ps == piece_views(found.pieces@),
            vs == pair_views(values@),
            render_pieces(ps, found.tail@, vs) == out@ + render_pieces(ps.skip(i as int), found.tail@, vs),
        decreases found.pieces.len() - i,
    {
        let ghost rest = ps.skip(i as int);
        assert(rest.drop_first() =~= ps.skip(i + 1));
        assert(rest[0] == found.pieces@[i as int]@);
        let piece = &found.pieces[i];
        let ghost before = out@;
        out.append(piece.before.as_str());
        let key = trimmed(piece.inner.as_str());
        match lookup_value(values, key.as_str()) {
            Some(v) => {
                out.append(v.as_str());
            },
            None => {
                out.push('$');
                out.push('{');
                out.append(piece.inner.as_str());
                out.push('}');
            },
        }
        assert(out@ =~= before + piece.before@ + substitute(piece.inner@, vs));
        assert(before + render_pieces(rest, found.tail@, vs) =~= out@ + render_pieces(ps.skip(i + 1), found.tail@, vs));
        i = i + 1;
    }
    assert(ps.skip(i as int) =~= Seq::<(Seq<char>, Seq<char>)>::empty());
    out.append(found.tail.as_str());
    out
}

/// The template text a cut stands for: every placeholder written back.
pub open spec fn reassemble(pieces: Seq<(Seq<char>, Seq<char>)>, tail: Seq<char>) -> Seq<char>
    decreases pieces.len(),
{
    if pieces.len() == 0 {
        tail
    } else {
        pieces[0].0 + wrap(pieces[0].1) + reassemble(pieces.drop_first(), tail)
    }
}

proof fn lemma_close_index(s: Seq<char>)
    ensures
        0 <= close_index(s) <= s.len(),
        close_index(s) < s.len() ==> s[close_index(s)] == '}',
    decreases s.len(),
{
    if s.len() > 0 && s[0] != '}' {
        lemma_close_index(s.drop_first());
    }
}

/// Cutting a template at its placeholders loses nothing.
pub proof fn lemma_scan_reassembles(s: Seq<char>)
    ensures
        reassemble(scan(s).0, scan(s).1) == s,
    decreases s.len(),
{
    if s.len() > 0 {
        let n = inner_len_at(s);
        if n > 0 {
            lemma_close_index(s.skip(2));
            assert(s.skip(2)[n] == s[n + 2]);
            lemma_scan_reassembles(s.skip(n + 3));
            let rest = scan(s.skip(n + 3));
            let ps = seq![(Seq::<char>::empty(), s.subrange(2, n + 2))] + rest.0;
            assert(ps.drop_first() =~= rest.0);
            assert(Seq::<char>::empty() + wrap(s.subrange(2, n + 2)) + s.skip(n + 3) =~= s);
        } else {
            lemma_scan_reassembles(s.drop_first());
            let rest = scan(s.drop_first());
            if rest.0.len() == 0 {
                assert(seq![s[0]] + s.drop_first() =~= s);
            } else {
                let ps = rest.0.update(0, (seq![s[0]] + rest.0[0].0, rest.0[0].1));
                assert(ps.drop_first() =~= rest.0.drop_first());
                assert(seq![s[0]] + rest.0[0].0 + wrap(rest.0[0].1) + reassemble(rest.0.drop_first(), rest.1)
                    =~= seq![s[0]] + (rest.0[0].0 + wrap(rest.0[0].1) + reassemble(rest.0.drop_first(), rest.1)));
                assert(seq![s[0]] + s.drop_first() =~= s);
            }
        }
    }
}

proof fn lemma_render_without_values(pieces: Seq<(Seq<char>, Seq<char>)>, tail: Seq<char>)
    ensures
        render_pieces(pieces, tail, Seq::empty()) == reassemble(pieces, tail),
    decreases pieces.len(),
{
    if pieces.len() > 0 {
        lemma_render_without_values(pieces.drop_first(), tail);
    }
}

/// Rendering without any value, automatic or prompted, gives the template
/// back unchanged.
pub proof fn lemma_render_identity(content: Seq<char>)
    ensures
        rendered(content, Seq::empty()) == content,
{
    lemma_render_without_values(scan(content).0, scan(content).1);
    lemma_scan_reassembles(content);
}

/// `content` with the values substituted for its placeholders; with no
/// values at all, `content` itself.
pub fn render_template(content: &str, values: &Vec<(String, String)>) -> (r: String)
    ensures
        r@ == rendered(content@, pair_views(values@)),
        values@.len() == 0 ==> r@ == content@,
{
    if values.len() == 0 {
        proof {
            lemma_render_identity(content@);
            assert(pair_views(values@) =~= Seq::<(Seq<char>, Seq<char>)>::empty());
        }
        return String::from_str(content);
    }
    render_found(&placeholders(content), values)
}

} // verus!
