//! The placeholder grammar: `{@`, optional whitespace, a nonempty variable
//! name of word characters, optional whitespace, `@}`.
//!
//! This module gives the grammar its mathematical definition (where a
//! placeholder starts, where it ends, which name it carries) and the
//! executable recognizer proved against it. Scanning is textual and
//! non-recursive: malformed or unmatched markers are never placeholders.
//!
//! The grammar is deliberately ASCII: a name is made of ASCII letters,
//! digits, and underscores, and the whitespace allowed around it is the
//! ASCII kind. A span holding any other character, a non-ASCII letter
//! included, is not a placeholder and passes through rendering as literal
//! text.

use vstd::prelude::*;

verus! {

/// A word character: an ASCII letter, digit, or underscore.
pub open spec fn is_word_char(c: char) -> bool {
    ('a' <= c && c <= 'z') || ('A' <= c && c <= 'Z') || ('0' <= c && c <= '9') || c == '_'
}

/// A whitespace character as allowed around a placeholder name.
pub open spec fn is_space_char(c: char) -> bool {
    c == ' ' || c == '\t' || c == '\n' || c == '\r'
}

/// First index at or after `i` that does not hold whitespace.
pub open spec fn spaces_end(s: Seq<char>, i: int) -> int
    decreases s.len() - i,
{
    if 0 <= i && i < s.len() && is_space_char(s[i]) {
        spaces_end(s, i + 1)
    } else {
        i
    }
}

/// First index at or after `i` that does not hold a word character.
pub open spec fn word_end(s: Seq<char>, i: int) -> int
    decreases s.len() - i,
{
    if 0 <= i && i < s.len() && is_word_char(s[i]) {
        word_end(s, i + 1)
    } else {
        i
    }
}

/// If a well-formed placeholder starts at index `i` of `s`, the index just
/// past its closing `@}`; otherwise `None`.
pub open spec fn placeholder_end(s: Seq<char>, i: int) -> Option<int> {
    if 0 <= i && i + 2 <= s.len() && s[i] == '{' && s[i + 1] == '@' {
        let j: int = spaces_end(s, i + 2);
        let k: int = word_end(s, j);
        let m: int = spaces_end(s, k);
        if j < k && m + 2 <= s.len() && s[m] == '@' && s[m + 1] == '}' {
            Some(m + 2)
        } else {
            None
        }
    } else {
        None
    }
}

/// The name carried by the placeholder starting at index `i` of `s`
/// (meaningful only when `placeholder_end(s, i)` is `Some`).
pub open spec fn placeholder_name(s: Seq<char>, i: int) -> Seq<char> {
    s.subrange(spaces_end(s, i + 2), word_end(s, spaces_end(s, i + 2)))
}

pub proof fn lemma_spaces_end(s: Seq<char>, i: int)
    requires
        0 <= i <= s.len(),
    ensures
        i <= spaces_end(s, i) <= s.len(),
        forall|j: int| i <= j < spaces_end(s, i) ==> is_space_char(s[j]),
        spaces_end(s, i) < s.len() ==> !is_space_char(s[spaces_end(s, i)]),
    decreases s.len() - i,
{
    if i < s.len() && is_space_char(s[i]) {
        lemma_spaces_end(s, i + 1);
    }
}

pub proof fn lemma_word_end(s: Seq<char>, i: int)
    requires
        0 <= i <= s.len(),
    ensures
        i <= word_end(s, i) <= s.len(),
        forall|j: int| i <= j < word_end(s, i) ==> is_word_char(s[j]),
        word_end(s, i) < s.len() ==> !is_word_char(s[word_end(s, i)]),
    decreases s.len() - i,
{
    if i < s.len() && is_word_char(s[i]) {
        lemma_word_end(s, i + 1);
    }
}

/// A placeholder spans at least the five characters of `{@x@}` and ends
/// within the string; its name is a nonempty run of word characters.
pub proof fn lemma_placeholder_bounds(s: Seq<char>, i: int)
    requires
        placeholder_end(s, i) is Some,
    ensures
        i + 5 <= placeholder_end(s, i)->Some_0 <= s.len(),
        placeholder_name(s, i).len() > 0,
        forall|j: int|
            0 <= j < placeholder_name(s, i).len() ==> is_word_char(placeholder_name(s, i)[j]),
{
    lemma_spaces_end(s, i + 2);
    lemma_word_end(s, spaces_end(s, i + 2));
    lemma_spaces_end(s, word_end(s, spaces_end(s, i + 2)));
}

/// First index at or after `i` of `cs` that does not hold whitespace.
fn spaces_end_exec(cs: &Vec<char>, i: usize) -> (j: usize)
    requires
        i <= cs@.len(),
    ensures
        j == spaces_end(cs@, i as int),
        i <= j <= cs@.len(),
{
    let n: usize = cs.len();
    let mut j: usize = i;
    while j < n
        invariant_except_break
            i <= j <= n == cs@.len(),
            spaces_end(cs@, i as int) == spaces_end(cs@, j as int),
        ensures
            i <= j <= n,
            j == spaces_end(cs@, i as int),
        decreases n - j,
    {
        if !crate::text::is_space(cs[j]) {
            break ;
        }
        j = j + 1;
    }
    j
}

/// First index at or after `i` of `cs` that does not hold a word character.
fn word_end_exec(cs: &Vec<char>, i: usize) -> (j: usize)
    requires
        i <= cs@.len(),
    ensures
        j == word_end(cs@, i as int),
        i <= j <= cs@.len(),
{
    let n: usize = cs.len();
    let mut j: usize = i;
    while j < n
        invariant_except_break
            i <= j <= n == cs@.len(),
            word_end(cs@, i as int) == word_end(cs@, j as int),
        ensures
            i <= j <= n,
            j == word_end(cs@, i as int),
        decreases n - j,
    {
        if !crate::text::is_word(cs[j]) {
            break ;
        }
        j = j + 1;
    }
    j
}

/// Recognizes a placeholder starting at index `i` of `cs`: returns the
/// bounds of its name and the index just past its closing `@}`.
pub fn find_placeholder(cs: &Vec<char>, i: usize) -> (r: Option<(usize, usize, usize)>)
    requires
        i <= cs@.len(),
    ensures
        match r {
            Some(t) => {
                &&& placeholder_end(cs@, i as int) == Some(t.2 as int)
                &&& i < t.0 <= t.1 <= t.2 <= cs@.len()
                &&& cs@.subrange(t.0 as int, t.1 as int) == placeholder_name(cs@, i as int)
            },
            None => placeholder_end(cs@, i as int) is None,
        },
{
    let n: usize = cs.len();
    if i >= n || n - i < 2 || cs[i] != '{' || cs[i + 1] != '@' {
        return None;
    }
    let ns: usize = spaces_end_exec(cs, i + 2);
    let ne: usize = word_end_exec(cs, ns);
    let m: usize = spaces_end_exec(cs, ne);
    if ne > ns && m < n && n - m >= 2 && cs[m] == '@' && cs[m + 1] == '}' {
        Some((ns, ne, m + 2))
    } else {
        None
    }
}

/// No character strictly inside a placeholder span is `{`, so two
/// placeholders can never overlap.
pub proof fn lemma_placeholder_no_brace_inside(s: Seq<char>, i: int, p: int)
    requires
        placeholder_end(s, i) is Some,
        i < p < placeholder_end(s, i)->Some_0,
    ensures
        s[p] != '{',
{
    let j: int = spaces_end(s, i + 2);
    let k: int = word_end(s, j);
    let m: int = spaces_end(s, k);
    lemma_spaces_end(s, i + 2);
    lemma_word_end(s, j);
    lemma_spaces_end(s, k);
}

} // verus!
