//! Turning free text into a slug that is safe as a directory name and as a
//! git branch component.
use vstd::prelude::*;

use crate::text::{chars_of, string_of};

verus! {

pub open spec fn is_ascii_alnum(c: char) -> bool {
    ('a' <= c && c <= 'z') || ('A' <= c && c <= 'Z') || ('0' <= c && c <= '9')
}

/// A character that a slug keeps as it is (after lower-casing).
pub open spec fn is_slug_char(c: char) -> bool {
    is_ascii_alnum(c) || c == '-' || c == '_'
}

/// A character that may appear in a finished slug.
pub open spec fn is_slug_output_char(c: char) -> bool {
    ('a' <= c && c <= 'z') || ('0' <= c && c <= '9') || c == '-' || c == '_'
}

pub open spec fn ascii_lower(c: char) -> char {
    if 'A' <= c && c <= 'Z' {
        ((c as u32) + 32) as char
    } else {
        c
    }
}

/// One left-to-right pass: kept characters are lower-cased, and each run of
/// other characters becomes one `-`, unless a `-` was just written.
pub open spec fn collapse(s: Seq<char>, dash: bool) -> Seq<char>
    decreases s.len(),
{
    if s.len() == 0 {
        Seq::empty()
    } else {
        let c = ascii_lower(s[0]);
        if is_ascii_alnum(c) {
            seq![c] + collapse(s.drop_first(), false)
        } else if c == '-' || c == '_' {
            seq![c] + collapse(s.drop_first(), c == '-')
        } else if dash {
            collapse(s.drop_first(), true)
        } else {
            seq!['-'] + collapse(s.drop_first(), true)
        }
    }
}

/// `s` without the leading `-` characters.
pub open spec fn strip_leading_dashes(s: Seq<char>) -> Seq<char>
    decreases s.len(),
{
    if s.len() > 0 && s[0] == '-' {
        strip_leading_dashes(s.drop_first())
    } else {
        s
    }
}

/// `s` without the trailing `-` characters.
pub open spec fn strip_trailing_dashes(s: Seq<char>) -> Seq<char>
    decreases s.len(),
{
    if s.len() > 0 && s.last() == '-' {
        strip_trailing_dashes(s.drop_last())
    } else {
        s
    }
}

pub open spec fn trimmed_slug(s: Seq<char>) -> Seq<char> {
    strip_trailing_dashes(strip_leading_dashes(collapse(s, false)))
}

pub open spec fn fallback_slug() -> Seq<char> {
    seq!['f', 'e', 'a', 't', 'u', 'r', 'e']
}

/// The slug of a free-text name.
pub open spec fn sanitized(s: Seq<char>) -> Seq<char> {
    if trimmed_slug(s).len() == 0 {
        fallback_slug()
    } else {
        trimmed_slug(s)
    }
}

fn to_ascii_lower(c: char) -> (r: char)
    ensures
        r == ascii_lower(c),
{
    if 'A' <= c && c <= 'Z' {
        ((c as u8) + 32) as char
    } else {
        c
    }
}

fn is_alnum(c: char) -> (r: bool)
    ensures
        r == is_ascii_alnum(c),
{
    ('a' <= c && c <= 'z') || ('A' <= c && c <= 'Z') || ('0' <= c && c <= '9')
}

/// Lower-cases ASCII letters, keeps ASCII letters, digits, `-` and `_`, turns
/// every run of other characters into a single `-`, and trims `-` at both ends;
/// an empty result becomes `feature`.
pub fn sanitize_name(input: &str) -> (r: String)
    ensures
        r@ == sanitized(input@),
{
    let cs = chars_of(input);
    let mut slug: Vec<char> = Vec::new();
    let mut last_dash = false;
    let mut i: usize = 0;
    assert(cs@.skip(0) =~= cs@);
    assert(slug@ + collapse(cs@, false) =~= collapse(cs@, false));
    while i < cs.len()
        invariant
            i <= cs@.len(),
            cs@ == input@,
            collapse(cs@, false) == slug@ + collapse(cs@.skip(i as int), last_dash),
        decreases cs.len() - i,
    {
        let ghost rest = cs@.skip(i as int);
        assert(rest.drop_first() =~= cs@.skip(i + 1));
        let lower = to_ascii_lower(cs[i]);
        if is_alnum(lower) {
            slug.push(lower);
            last_dash = false;
        } else if lower == '-' || lower == '_' {
            slug.push(lower);
            last_dash = lower == '-';
        } else if !last_dash {
            slug.push('-');
            last_dash = true;
        }
        i = i + 1;
    }
    assert(cs@.skip(cs@.len() as int) =~= Seq::<char>::empty());
    assert(slug@ =~= collapse(cs@, false));
    let mut lo: usize = 0;
    assert(slug@.skip(0) =~= slug@);
    while lo < slug.len() && slug[lo] == '-'
        invariant
            lo <= slug@.len(),
            strip_leading_dashes(slug@) == strip_leading_dashes(slug@.skip(lo as int)),
        decreases slug.len() - lo,
    {
        assert(slug@.skip(lo as int).drop_first() =~= slug@.skip(lo + 1));
        lo = lo + 1;
    }
    assert(strip_leading_dashes(slug@.skip(lo as int)) == slug@.skip(lo as int));
    assert(slug@.skip(lo as int) =~= slug@.subrange(lo as int, slug@.len() as int));
    let mut hi: usize = slug.len();
    while hi > lo && slug[hi - 1] == '-'
        invariant
            lo <= hi <= slug@.len(),
            strip_trailing_dashes(slug@.subrange(lo as int, slug@.len() as int))
                == strip_trailing_dashes(slug@.subrange(lo as int, hi as int)),
        decreases hi,
    {
        assert(slug@.subrange(lo as int, hi as int).drop_last() =~= slug@.subrange(lo as int, hi - 1));
        hi = hi - 1;
    }
    if hi == lo {
        let r = String::from_str("feature");
        proof {
            reveal_strlit("feature");
            assert(r@ =~= fallback_slug());
        }
        r
    } else {
        string_of(&slug, lo, hi)
    }
}

pub open spec fn is_word_char(c: char) -> bool {
    is_ascii_alnum(c) || c == '_'
}

proof fn lemma_collapse_output(s: Seq<char>, dash: bool)
    ensures
        forall|i: int| 0 <= i < collapse(s, dash).len() ==> is_slug_output_char(#[trigger] collapse(s, dash)[i]),
    decreases s.len(),
{
    if s.len() > 0 {
        lemma_collapse_output(s.drop_first(), false);
        lemma_collapse_output(s.drop_first(), true);
        let c = ascii_lower(s[0]);
        if 'A' <= s[0] && s[0] <= 'Z' {
            assert('a' <= c && c <= 'z');
        }
        let tail_f = collapse(s.drop_first(), false);
        let tail_t = collapse(s.drop_first(), true);
        assert forall|i: int| 0 <= i < collapse(s, dash).len() implies is_slug_output_char(#[trigger] collapse(s, dash)[i]) by {
            if i > 0 {
                if is_ascii_alnum(c) {
                    assert(collapse(s, dash)[i] == tail_f[i - 1]);
                } else if c == '-' || c == '_' {
                    if c == '-' {
                        assert(collapse(s, dash)[i] == tail_t[i - 1]);
                    } else {
                        assert(collapse(s, dash)[i] == tail_f[i - 1]);
                    }
                } else if !dash {
                    assert(collapse(s, dash)[i] == tail_t[i - 1]);
                }
            }
        }
    }
}

/// Without any character that a slug keeps, the pass writes only dashes.
proof fn lemma_collapse_only_dashes(s: Seq<char>, dash: bool)
    requires
        forall|i: int| 0 <= i < s.len() ==> !is_slug_char(#[trigger] s[i]),
    ensures
        forall|i: int| 0 <= i < collapse(s, dash).len() ==> #[trigger] collapse(s, dash)[i] == '-',
    decreases s.len(),
{
    if s.len() > 0 {
        assert forall|i: int| 0 <= i < s.drop_first().len() implies !is_slug_char(#[trigger] s.drop_first()[i]) by {
            assert(s.drop_first()[i] == s[i + 1]);
        }
        lemma_collapse_only_dashes(s.drop_first(), true);
        let c = ascii_lower(s[0]);
        assert(!is_slug_char(s[0]));
        assert(c == s[0]);
        let tail = collapse(s.drop_first(), true);
        assert forall|i: int| 0 <= i < collapse(s, dash).len() implies #[trigger] collapse(s, dash)[i] == '-' by {
            if i > 0 && !dash {
                assert(collapse(s, dash)[i] == tail[i - 1]);
            }
        }
    }
}

/// A letter, digit or `_` in the input leaves a character other than `-`.
proof fn lemma_collapse_keeps_word(s: Seq<char>, dash: bool, i: int)
    requires
        0 <= i < s.len(),
        is_word_char(s[i]),
    ensures
        exists|j: int| 0 <= j < collapse(s, dash).len() && #[trigger] collapse(s, dash)[j] != '-',
    decreases s.len(),
{
    let c = ascii_lower(s[0]);
    if i == 0 {
        if 'A' <= s[0] && s[0] <= 'Z' {
            assert('a' <= c && c <= 'z');
        }
        assert(collapse(s, dash)[0] == c);
    } else {
        assert(s.drop_first()[i - 1] == s[i]);
        let d2 = if is_ascii_alnum(c) {
            false
        } else if c == '-' || c == '_' {
            c == '-'
        } else {
            true
        };
        lemma_collapse_keeps_word(s.drop_first(), d2, i - 1);
        let tail = collapse(s.drop_first(), d2);
        let j = choose|j: int| 0 <= j < tail.len() && #[trigger] tail[j] != '-';
        if is_ascii_alnum(c) || c == '-' || c == '_' || !dash {
            assert(collapse(s, dash)[j + 1] == tail[j]);
        } else {
            assert(collapse(s, dash)[j] == tail[j]);
        }
    }
}

proof fn lemma_strip_leading(x: Seq<char>) -> (k: int)
    ensures
        0 <= k <= x.len(),
        strip_leading_dashes(x) == x.skip(k),
        forall|j: int| 0 <= j < k ==> #[trigger] x[j] == '-',
        k < x.len() ==> x[k] != '-',
    decreases x.len(),
{
    if x.len() > 0 && x[0] == '-' {
        let k0 = lemma_strip_leading(x.drop_first());
        assert(x.drop_first().skip(k0) =~= x.skip(k0 + 1));
        assert forall|j: int| 0 <= j < k0 + 1 implies #[trigger] x[j] == '-' by {
            if j > 0 {
                assert(x[j] == x.drop_first()[j - 1]);
            }
        }
        k0 + 1
    } else {
        assert(x.skip(0) =~= x);
        0
    }
}

proof fn lemma_strip_trailing(x: Seq<char>) -> (k: int)
    ensures
        0 <= k <= x.len(),
        strip_trailing_dashes(x) == x.take(k),
        forall|j: int| k <= j < x.len() ==> #[trigger] x[j] == '-',
        k > 0 ==> x[k - 1] != '-',
    decreases x.len(),
{
    if x.len() > 0 && x.last() == '-' {
        let k0 = lemma_strip_trailing(x.drop_last());
        assert(x.drop_last().take(k0) =~= x.take(k0));
        assert forall|j: int| k0 <= j < x.len() implies #[trigger] x[j] == '-' by {
            if j < x.len() - 1 {
                assert(x[j] == x.drop_last()[j]);
            }
        }
        k0
    } else {
        assert(x.take(x.len() as int) =~= x);
        x.len() as int
    }
}

/// Every slug is made of `a-z`, `0-9`, `-` and `_`, never starts or ends with
/// `-`, and is `feature` when the input holds no letter, digit, `-` or `_`.
pub proof fn lemma_sanitized_is_safe(s: Seq<char>)
    ensures
        sanitized(s).len() > 0,
        forall|i: int| 0 <= i < sanitized(s).len() ==> is_slug_output_char(#[trigger] sanitized(s)[i]),
        sanitized(s)[0] != '-',
        sanitized(s).last() != '-',
        (forall|i: int| 0 <= i < s.len() ==> !is_slug_char(#[trigger] s[i])) ==> sanitized(s) == fallback_slug(),
        (exists|i: int| 0 <= i < s.len() && is_word_char(#[trigger] s[i])) ==> sanitized(s) == trimmed_slug(s),
{
    let c = collapse(s, false);
    lemma_collapse_output(s, false);
    let k1 = lemma_strip_leading(c);
    let y = c.skip(k1);
    let k2 = lemma_strip_trailing(y);
    let t = y.take(k2);
    assert(trimmed_slug(s) == t);
    assert forall|i: int| 0 <= i < t.len() implies is_slug_output_char(#[trigger] t[i]) && t[i] == c[k1 + i] by {
        assert(t[i] == y[i]);
        assert(y[i] == c[k1 + i]);
    }
    if t.len() > 0 {
        assert(t[0] == c[k1]);
        assert(t.last() == y[k2 - 1]);
    }
    assert(fallback_slug().len() == 7);
    if forall|i: int| 0 <= i < s.len() ==> !is_slug_char(#[trigger] s[i]) {
        lemma_collapse_only_dashes(s, false);
        if k1 < c.len() {
            assert(c[k1] == '-');
        }
        assert(t.len() == 0);
    }
    if exists|i: int| 0 <= i < s.len() && is_word_char(#[trigger] s[i]) {
        let i = choose|i: int| 0 <= i < s.len() && is_word_char(#[trigger] s[i]);
        lemma_collapse_keeps_word(s, false, i);
        let j = choose|j: int| 0 <= j < c.len() && #[trigger] c[j] != '-';
        assert(j >= k1);
        assert(y[j - k1] == c[j]);
        assert(k2 > j - k1);
    }
}

/// The slug is `feature` exactly when the input holds no letter, digit, `-` or
/// `_`; this is stated for inputs whose kept characters are not all `-` and
/// whose slug is not itself the word `feature`.
pub proof fn lemma_sanitized_fallback_exactly(s: Seq<char>)
    requires
        (exists|i: int| 0 <= i < s.len() && is_slug_char(#[trigger] s[i])) ==> (exists|i: int|
            0 <= i < s.len() && is_word_char(#[trigger] s[i])),
        trimmed_slug(s) != fallback_slug(),
    ensures
        (sanitized(s) == fallback_slug()) <==> (forall|i: int| 0 <= i < s.len() ==> !is_slug_char(#[trigger] s[i])),
{
    lemma_sanitized_is_safe(s);
}

} // verus!
