//! The renderer: substitutes variable definitions into a template string in
//! one left-to-right pass.
//!
//! Per string, a well-formed placeholder `{@ name @}` whose name is defined
//! is replaced by its value (literally, with no re-interpretation and no
//! recursive substitution); a placeholder whose name is undefined is left as
//! its raw text. Outside placeholders, every `@` is stripped and every other
//! character, braces included, is kept. Rendering performs no I/O and cannot
//! fail.
//!
//! The rendered files form a mapping from rendered path to rendered
//! content: when two template files render to the same path, the later one
//! wins and a single entry remains.

use crate::placeholder::{find_placeholder, lemma_placeholder_bounds, placeholder_end, placeholder_name};
use crate::template::{ProjectTemplate, RenderedTemplate, TemplateFile};
use crate::text::{append_range, push_char, range_eq_str, to_char_vec};
use vstd::prelude::*;
use vstd::string::StringExecFns;

verus! {

/// The value of the first entry whose key holds the characters `k`.
pub open spec fn seq_lookup(s: Seq<(String, String)>, k: Seq<char>) -> Option<Seq<char>>
    decreases s.len(),
{
    if s.len() == 0 {
        None
    } else if s[0].0@ == k {
        Some(s[0].1@)
    } else {
        seq_lookup(s.drop_first(), k)
    }
}

/// A map from variable name to replacement value, read-only during
/// rendering.
pub struct Definitions {
    entries: Vec<(String, String)>,
}

impl View for Definitions {
    type V = Map<Seq<char>, Seq<char>>;

    closed spec fn view(&self) -> Map<Seq<char>, Seq<char>> {
        Map::new(
            |k: Seq<char>| seq_lookup(self.entries@, k) is Some,
            |k: Seq<char>| seq_lookup(self.entries@, k)->Some_0,
        )
    }
}

impl Definitions {
    /// An empty set of definitions.
    pub fn new() -> (d: Definitions)
        ensures
            d@ == Map::<Seq<char>, Seq<char>>::empty(),
    {
        let d = Definitions { entries: Vec::new() };
        proof {
            assert(d@ =~= Map::<Seq<char>, Seq<char>>::empty());
        }
        d
    }

    /// Defines `name` as `value`, replacing any earlier definition.
    pub fn insert(&mut self, name: String, value: String)
        ensures
            final(self)@ == old(self)@.insert(name@, value@),
    {
        self.entries.insert(0, (name, value));
        proof {
            assert(self.entries@.drop_first() =~= old(self).entries@);
            assert forall|k: Seq<char>| #[trigger] seq_lookup(self.entries@, k) == (if k == name@ {
                Some(value@)
            } else {
                seq_lookup(old(self).entries@, k)
            }) by {
                assert(self.entries@[0].0@ == name@);
            }
            assert(self@ =~= old(self)@.insert(name@, value@));
        }
    }

    /// The value defined for `name`, if any.
    pub fn get(&self, name: &str) -> (r: Option<&String>)
        ensures
            match r {
                Some(v) => self@.dom().contains(name@) && v@ == self@[name@],
                None => !self@.dom().contains(name@),
            },
    {
        let n: usize = self.entries.len();
        let mut j: usize = 0;
        proof {
            assert(self.entries@.skip(0) =~= self.entries@);
        }
        while j < n
            invariant
                n == self.entries@.len(),
                j <= n,
                seq_lookup(self.entries@, name@) == seq_lookup(
                    self.entries@.skip(j as int),
                    name@,
                ),
            decreases n - j,
        {
            proof {
                assert(self.entries@.skip(j as int)[0] == self.entries@[j as int]);
            }
            if crate::text::str_eq(self.entries[j].0.as_str(), name) {
                proof {
                    assert(seq_lookup(self.entries@, name@) == Some(self.entries@[j as int].1@));
                }
                return Some(&self.entries[j].1);
            }
            proof {
                assert(self.entries@.skip(j as int).drop_first() =~= self.entries@.skip(
                    j as int + 1,
                ));
                assert(seq_lookup(self.entries@.skip(j as int), name@) == seq_lookup(
                    self.entries@.skip(j as int + 1),
                    name@,
                ));
            }
            j = j + 1;
        }
        None
    }

    /// The value defined for the name held in `cs[lo..hi]`, if any.
    fn get_range(&self, cs: &Vec<char>, lo: usize, hi: usize) -> (r: Option<&String>)
        requires
            lo <= hi <= cs@.len(),
        ensures
            match r {
                Some(v) => self@.dom().contains(cs@.subrange(lo as int, hi as int)) && v@
                    == self@[cs@.subrange(lo as int, hi as int)],
                None => !self@.dom().contains(cs@.subrange(lo as int, hi as int)),
            },
    {
        let ghost name: Seq<char> = cs@.subrange(lo as int, hi as int);
        let n: usize = self.entries.len();
        let mut j: usize = 0;
        proof {
            assert(self.entries@.skip(0) =~= self.entries@);
        }
        while j < n
            invariant
                n == self.entries@.len(),
                j <= n,
                lo <= hi <= cs@.len(),
                name == cs@.subrange(lo as int, hi as int),
                seq_lookup(self.entries@, name) == seq_lookup(self.entries@.skip(j as int), name),
            decreases n - j,
        {
            proof {
                assert(self.entries@.skip(j as int)[0] == self.entries@[j as int]);
            }
            if range_eq_str(cs, lo, hi, self.entries[j].0.as_str()) {
                proof {
                    assert(self.entries@.skip(j as int)[0].0@ == name);
                    assert(seq_lookup(self.entries@, name) == Some(self.entries@[j as int].1@));
                }
                return Some(&self.entries[j].1);
            }
            proof {
                assert(self.entries@.skip(j as int).drop_first() =~= self.entries@.skip(
                    j as int + 1,
                ));
                assert(seq_lookup(self.entries@.skip(j as int), name) == seq_lookup(
                    self.entries@.skip(j as int + 1),
                    name,
                ));
            }
            j = j + 1;
        }
        None
    }
}

/// The rendering of `s` from index `i` on: defined placeholders replaced by
/// their values, undefined ones kept as raw text, stray `@` stripped, every
/// other character kept.
pub open spec fn render_from(s: Seq<char>, i: int, defs: Map<Seq<char>, Seq<char>>) -> Seq<char>
    decreases s.len() - i,
    via render_from_dec
{
    if i < 0 || i >= s.len() {
        Seq::empty()
    } else {
        match placeholder_end(s, i) {
            Some(e) => {
                let name = placeholder_name(s, i);
                let rest = render_from(s, e, defs);
                if defs.dom().contains(name) {
                    defs[name] + rest
                } else {
                    s.subrange(i, e) + rest
                }
            },
            None => {
                let rest = render_from(s, i + 1, defs);
                if s[i] == '@' {
                    rest
                } else {
                    seq![s[i]] + rest
                }
            },
        }
    }
}

#[via_fn]
proof fn render_from_dec(s: Seq<char>, i: int, defs: Map<Seq<char>, Seq<char>>) {
    if 0 <= i < s.len() && placeholder_end(s, i) is Some {
        lemma_placeholder_bounds(s, i);
    }
}

/// The rendering of the whole of `s` against `defs`.
pub open spec fn render_chars(s: Seq<char>, defs: Map<Seq<char>, Seq<char>>) -> Seq<char> {
    render_from(s, 0, defs)
}

proof fn lemma_render_from_no_at(s: Seq<char>, i: int, defs: Map<Seq<char>, Seq<char>>)
    requires
        0 <= i <= s.len(),
        forall|j: int| 0 <= j < s.len() ==> s[j] != '@',
    ensures
        render_from(s, i, defs) == s.subrange(i, s.len() as int),
    decreases s.len() - i,
{
    if i >= s.len() {
        assert(s.subrange(i, s.len() as int) =~= Seq::<char>::empty());
    } else {
        lemma_render_from_no_at(s, i + 1, defs);
        assert(seq![s[i]] + s.subrange(i + 1, s.len() as int) =~= s.subrange(i, s.len() as int));
    }
}

/// Law: a string without `@` characters renders to itself under any
/// definitions. In particular, rendering is idempotent on output in which
/// no placeholder and no stray `@` remains, and stray braces are preserved
/// unchanged.
pub proof fn lemma_render_plain_identity(s: Seq<char>, defs: Map<Seq<char>, Seq<char>>)
    requires
        forall|j: int| 0 <= j < s.len() ==> s[j] != '@',
    ensures
        render_chars(s, defs) == s,
{
    lemma_render_from_no_at(s, 0, defs);
    assert(s.subrange(0, s.len() as int) =~= s);
}

/// `s` from index `i` on with the placeholder markers removed: each
/// placeholder is replaced by its bare name, stray `@` characters are
/// stripped, and every other character is kept.
pub open spec fn strip_from(s: Seq<char>, i: int) -> Seq<char>
    decreases s.len() - i,
    via strip_from_dec
{
    if i < 0 || i >= s.len() {
        Seq::empty()
    } else {
        match placeholder_end(s, i) {
            Some(e) => placeholder_name(s, i) + strip_from(s, e),
            None => {
                let rest = strip_from(s, i + 1);
                if s[i] == '@' {
                    rest
                } else {
                    seq![s[i]] + rest
                }
            },
        }
    }
}

#[via_fn]
proof fn strip_from_dec(s: Seq<char>, i: int) {
    if 0 <= i < s.len() && placeholder_end(s, i) is Some {
        lemma_placeholder_bounds(s, i);
    }
}

/// The whole of `s` with the placeholder markers removed.
pub open spec fn strip_markers(s: Seq<char>) -> Seq<char> {
    strip_from(s, 0)
}

proof fn lemma_render_from_self_map(s: Seq<char>, i: int, defs: Map<Seq<char>, Seq<char>>)
    requires
        0 <= i <= s.len(),
        forall|n: Seq<char>| #[trigger]
            crate::scan::scan_from(s, i).contains(n) ==> defs.dom().contains(n) && defs[n] == n,
    ensures
        render_from(s, i, defs) == strip_from(s, i),
    decreases s.len() - i,
{
    if i < s.len() {
        match placeholder_end(s, i) {
            Some(e) => {
                lemma_placeholder_bounds(s, i);
                let name = placeholder_name(s, i);
                assert(crate::scan::scan_from(s, i) == crate::scan::scan_from(s, e).insert(name));
                assert(crate::scan::scan_from(s, i).contains(name));
                assert forall|n: Seq<char>| #[trigger]
                    crate::scan::scan_from(s, e).contains(n) implies defs.dom().contains(n)
                    && defs[n] == n by {
                    assert(crate::scan::scan_from(s, i).contains(n));
                }
                assert(forall|n: Seq<char>| #[trigger]
                    crate::scan::scan_from(s, e).contains(n) ==> defs.dom().contains(n) && defs[n]
                        == n);
                lemma_render_from_self_map(s, e, defs);
            },
            None => {
                assert(crate::scan::scan_from(s, i) == crate::scan::scan_from(s, i + 1));
                assert forall|n: Seq<char>| #[trigger]
                    crate::scan::scan_from(s, i + 1).contains(n) implies defs.dom().contains(n)
                    && defs[n] == n by {
                    assert(crate::scan::scan_from(s, i).contains(n));
                }
                assert(forall|n: Seq<char>| #[trigger]
                    crate::scan::scan_from(s, i + 1).contains(n) ==> defs.dom().contains(n)
                        && defs[n] == n);
                lemma_render_from_self_map(s, i + 1, defs);
            },
        }
    }
}

/// Law: rendering against definitions that map every scanned variable of a
/// string to its own name reproduces the string with only the placeholder
/// markers removed. This is the renderer's half of the capture round trip.
pub proof fn lemma_render_self_map(s: Seq<char>, defs: Map<Seq<char>, Seq<char>>)
    requires
        forall|n: Seq<char>| #[trigger]
            crate::scan::scan_chars(s).contains(n) ==> defs.dom().contains(n) && defs[n] == n,
    ensures
        render_chars(s, defs) == strip_markers(s),
{
    assert(crate::scan::scan_chars(s) == crate::scan::scan_from(s, 0));
    assert forall|n: Seq<char>| #[trigger]
        crate::scan::scan_from(s, 0).contains(n) implies defs.dom().contains(n) && defs[n]
        == n by {
        assert(crate::scan::scan_chars(s).contains(n));
    }
    assert(forall|n: Seq<char>| #[trigger]
        crate::scan::scan_from(s, 0).contains(n) ==> defs.dom().contains(n) && defs[n] == n);
    lemma_render_from_self_map(s, 0, defs);
}

proof fn lemma_scan_all_member(ss: Seq<Seq<char>>, j: int)
    requires
        0 <= j < ss.len(),
    ensures
        forall|n: Seq<char>| #[trigger]
            crate::scan::scan_chars(ss[j]).contains(n) ==> crate::scan::scan_all(ss).contains(n),
    decreases ss.len(),
{
    assert(crate::scan::scan_all(ss) == crate::scan::scan_all(ss.drop_last()).union(
        crate::scan::scan_chars(ss.last()),
    ));
    if j == ss.len() - 1 {
        assert forall|n: Seq<char>| #[trigger]
            crate::scan::scan_chars(ss[j]).contains(n) implies crate::scan::scan_all(
            ss,
        ).contains(n) by {
            assert(crate::scan::scan_chars(ss.last()).contains(n));
        }
    } else {
        lemma_scan_all_member(ss.drop_last(), j);
        assert(ss.drop_last()[j] == ss[j]);
        assert forall|n: Seq<char>| #[trigger]
            crate::scan::scan_chars(ss[j]).contains(n) implies crate::scan::scan_all(
            ss,
        ).contains(n) by {
            assert(crate::scan::scan_chars(ss.drop_last()[j]).contains(n));
            assert(crate::scan::scan_all(ss.drop_last()).contains(n));
        }
    }
}

/// Law: when the definitions map every variable of a captured template to
/// its own name, each of the template's strings (a directory path, a file
/// path, or a file content) renders to itself with only the placeholder
/// markers removed. Together with the contract of `build_template`, this is
/// the renderer's side of the capture round trip.
pub proof fn lemma_capture_render_round_trip(
    dirs: Seq<String>,
    files: Seq<crate::template::TemplateFile>,
    s: Seq<char>,
    defs: Map<Seq<char>, Seq<char>>,
)
    requires
        forall|n: Seq<char>| #[trigger]
            crate::scan::template_vars(dirs, files).contains(n) ==> defs.dom().contains(n)
                && defs[n] == n,
        crate::scan::template_strings(dirs, files).contains(s),
    ensures
        render_chars(s, defs) == strip_markers(s),
{
    let ss = crate::scan::template_strings(dirs, files);
    let j: int = choose|j: int| 0 <= j < ss.len() && ss[j] == s;
    lemma_scan_all_member(ss, j);
    assert(crate::scan::template_vars(dirs, files) == crate::scan::scan_all(ss));
    assert forall|n: Seq<char>| #[trigger]
        crate::scan::scan_chars(s).contains(n) implies defs.dom().contains(n) && defs[n]
        == n by {
        assert(crate::scan::scan_chars(ss[j]).contains(n));
        assert(crate::scan::scan_all(ss).contains(n));
        assert(crate::scan::template_vars(dirs, files).contains(n));
    }
    assert(forall|n: Seq<char>| #[trigger]
        crate::scan::scan_chars(s).contains(n) ==> defs.dom().contains(n) && defs[n] == n);
    lemma_render_self_map(s, defs);
}

/// Law: a placeholder whose name has no definition renders to its own raw
/// text, followed by the rendering of what comes after it.
pub proof fn lemma_unresolved_placeholder(s: Seq<char>, i: int, defs: Map<Seq<char>, Seq<char>>)
    requires
        placeholder_end(s, i) is Some,
        !defs.dom().contains(placeholder_name(s, i)),
    ensures
        render_from(s, i, defs) == s.subrange(i, placeholder_end(s, i)->Some_0) + render_from(
            s,
            placeholder_end(s, i)->Some_0,
            defs,
        ),
{
    lemma_placeholder_bounds(s, i);
}

/// Law: a string that is exactly one placeholder whose name has no
/// definition renders to itself, unchanged.
pub proof fn lemma_unresolved_stays(s: Seq<char>, defs: Map<Seq<char>, Seq<char>>)
    requires
        placeholder_end(s, 0) == Some(s.len() as int),
        !defs.dom().contains(placeholder_name(s, 0)),
    ensures
        render_chars(s, defs) == s,
{
    lemma_unresolved_placeholder(s, 0, defs);
    assert(s.subrange(0, s.len() as int) =~= s);
    assert(s.subrange(0, s.len() as int) + render_from(s, s.len() as int, defs) =~= s);
}

/// A sequence of files as path/content view pairs, in order.
pub open spec fn file_pairs(files: Seq<TemplateFile>) -> Seq<(Seq<char>, Seq<char>)> {
    files.map_values(|f: TemplateFile| (f.path@, f.content@))
}

/// The content that a sequence of path/content pairs, read as a mapping,
/// assigns to `path`: the last pair with that path wins.
pub open spec fn pairs_lookup(pairs: Seq<(Seq<char>, Seq<char>)>, path: Seq<char>) -> Option<
    Seq<char>,
>
    decreases pairs.len(),
{
    if pairs.len() == 0 {
        None
    } else if pairs.last().0 == path {
        Some(pairs.last().1)
    } else {
        pairs_lookup(pairs.drop_last(), path)
    }
}

/// Every pair with its path and its content rendered against `defs`.
pub open spec fn rendered_pairs(
    pairs: Seq<(Seq<char>, Seq<char>)>,
    defs: Map<Seq<char>, Seq<char>>,
) -> Seq<(Seq<char>, Seq<char>)> {
    pairs.map_values(|pr: (Seq<char>, Seq<char>)| (render_chars(pr.0, defs), render_chars(pr.1, defs)))
}

/// No two pairs share a path.
pub open spec fn distinct_paths(pairs: Seq<(Seq<char>, Seq<char>)>) -> bool {
    forall|a: int, b: int| 0 <= a < b < pairs.len() ==> pairs[a].0 != pairs[b].0
}

/// In a sequence of pairs with distinct paths, the mapping assigns to each
/// pair's path that pair's content.
pub proof fn lemma_pairs_lookup_at(pairs: Seq<(Seq<char>, Seq<char>)>, idx: int, p: Seq<char>)
    requires
        distinct_paths(pairs),
        0 <= idx < pairs.len(),
        pairs[idx].0 == p,
    ensures
        pairs_lookup(pairs, p) == Some(pairs[idx].1),
    decreases pairs.len(),
{
    if idx < pairs.len() - 1 {
        assert(pairs[pairs.len() - 1].0 != p);
        assert(distinct_paths(pairs.drop_last()));
        lemma_pairs_lookup_at(pairs.drop_last(), idx, p);
    }
}

pub(crate) proof fn lemma_pairs_lookup_update_other(
    pairs: Seq<(Seq<char>, Seq<char>)>,
    idx: int,
    pr: (Seq<char>, Seq<char>),
    p: Seq<char>,
)
    requires
        0 <= idx < pairs.len(),
        pr.0 == pairs[idx].0,
        p != pr.0,
    ensures
        pairs_lookup(pairs.update(idx, pr), p) == pairs_lookup(pairs, p),
    decreases pairs.len(),
{
    let u = pairs.update(idx, pr);
    if idx == pairs.len() - 1 {
        assert(u.last() == pr);
        assert(u.drop_last() =~= pairs.drop_last());
    } else {
        assert(u.last() == pairs.last());
        assert(u.drop_last() =~= pairs.drop_last().update(idx, pr));
        if pairs.last().0 != p {
            lemma_pairs_lookup_update_other(pairs.drop_last(), idx, pr, p);
        }
    }
}

/// The index of the first file whose path equals `path`, if any.
fn find_file(files: &Vec<TemplateFile>, path: &str) -> (r: Option<usize>)
    ensures
        match r {
            Some(i) => i < files@.len() && files@[i as int].path@ == path@,
            None => forall|i: int| 0 <= i < files@.len() ==> files@[i].path@ != path@,
        },
{
    let n: usize = files.len();
    let mut i: usize = 0;
    while i < n
        invariant
            n == files@.len(),
            i <= n,
            forall|k: int| 0 <= k < i ==> files@[k].path@ != path@,
        decreases n - i,
    {
        if crate::text::str_eq(files[i].path.as_str(), path) {
            return Some(i);
        }
        i = i + 1;
    }
    None
}

/// Renders one template string against the definitions.
pub fn render_string(s: &str, defs: &Definitions) -> (out: String)
    ensures
        out@ == render_chars(s@, defs@),
{
    let cs: Vec<char> = to_char_vec(s);
    let n: usize = cs.len();
    let mut out: String = String::new();
    let mut i: usize = 0;
    while i < n
        invariant
            cs@ == s@,
            i <= n == cs@.len(),
            render_chars(s@, defs@) == out@ + render_from(cs@, i as int, defs@),
        decreases n - i,
    {
        let ghost out0: Seq<char> = out@;
        match find_placeholder(&cs, i) {
            Some((ns, ne, e)) => {
                let ghost name: Seq<char> = cs@.subrange(ns as int, ne as int);
                match defs.get_range(&cs, ns, ne) {
                    Some(v) => {
                        out.append(v.as_str());
                        proof {
                            assert(out@ + render_from(cs@, e as int, defs@) =~= out0
                                + render_from(cs@, i as int, defs@));
                        }
                    },
                    None => {
                        append_range(&mut out, &cs, i, e);
                        proof {
                            assert(out@ + render_from(cs@, e as int, defs@) =~= out0
                                + render_from(cs@, i as int, defs@));
                        }
                    },
                }
                i = e;
            },
            None => {
                let c: char = cs[i];
                if c != '@' {
                    push_char(&mut out, c);
                    proof {
                        assert(out@ + render_from(cs@, i as int + 1, defs@) =~= out0
                            + render_from(cs@, i as int, defs@));
                    }
                }
                i = i + 1;
            },
        }
    }
    proof {
        assert(out@ + render_from(cs@, n as int, defs@) =~= out@);
    }
    out
}

/// Renders every file of `templ` and collects the results as a mapping from
/// rendered path to rendered content: the rendered paths are distinct, and
/// when two files render to the same path, the later one wins.
fn render_files(templ: &ProjectTemplate, defs: &Definitions) -> (files: Vec<TemplateFile>)
    ensures
        distinct_paths(file_pairs(files@)),
        files@.len() <= templ.files@.len(),
        forall|p: Seq<char>| #[trigger]
            pairs_lookup(file_pairs(files@), p) == pairs_lookup(
                rendered_pairs(file_pairs(templ.files@), defs@),
                p,
            ),
{
    let nf: usize = templ.files.len();
    let mut files: Vec<TemplateFile> = Vec::new();
    let mut j: usize = 0;
    proof {
        assert(file_pairs(files@) =~= Seq::<(Seq<char>, Seq<char>)>::empty());
        assert(file_pairs(templ.files@.take(0)) =~= Seq::<(Seq<char>, Seq<char>)>::empty());
        assert(rendered_pairs(file_pairs(templ.files@.take(0)), defs@) =~= Seq::<
            (Seq<char>, Seq<char>),
        >::empty());
    }
    while j < nf
        invariant
            nf == templ.files@.len(),
            j <= nf,
            files@.len() <= j,
            distinct_paths(file_pairs(files@)),
            forall|p: Seq<char>| #[trigger]
                pairs_lookup(file_pairs(files@), p) == pairs_lookup(
                    rendered_pairs(file_pairs(templ.files@.take(j as int)), defs@),
                    p,
                ),
        decreases nf - j,
    {
        let path: String = render_string(templ.files[j].path.as_str(), defs);
        let content: String = render_string(templ.files[j].content.as_str(), defs);
        let ghost pv: Seq<char> = path@;
        let ghost cv: Seq<char> = content@;
        let ghost f0: Seq<(Seq<char>, Seq<char>)> = file_pairs(files@);
        let ghost r0: Seq<(Seq<char>, Seq<char>)> = rendered_pairs(
            file_pairs(templ.files@.take(j as int)),
            defs@,
        );
        let ghost r1: Seq<(Seq<char>, Seq<char>)> = rendered_pairs(
            file_pairs(templ.files@.take(j as int + 1)),
            defs@,
        );
        proof {
            assert(templ.files@.take(j as int + 1).drop_last() =~= templ.files@.take(j as int));
            assert(r1 =~= r0.push((pv, cv)));
            assert(r1.last() == (pv, cv));
            assert(r1.drop_last() =~= r0);
        }
        match find_file(&files, path.as_str()) {
            Some(idx) => {
                files.set(idx, TemplateFile { path, content });
                proof {
                    let f1 = file_pairs(files@);
                    assert(f1 =~= f0.update(idx as int, (pv, cv)));
                    assert(f0[idx as int].0 == pv);
                    assert forall|a: int, b: int| 0 <= a < b < f1.len() implies f1[a].0
                        != f1[b].0 by {
                        assert(f1[a].0 == f0[a].0 && f1[b].0 == f0[b].0);
                    }
                    assert forall|p: Seq<char>| #[trigger]
                        pairs_lookup(f1, p) == pairs_lookup(r1, p) by {
                        if p == pv {
                            lemma_pairs_lookup_at(f1, idx as int, p);
                            assert(pairs_lookup(r1, p) == Some(cv));
                        } else {
                            lemma_pairs_lookup_update_other(f0, idx as int, (pv, cv), p);
                            assert(pairs_lookup(r1, p) == pairs_lookup(r0, p));
                            assert(pairs_lookup(f0, p) == pairs_lookup(r0, p));
                        }
                    }
                }
            },
            None => {
                proof {
                    assert(forall|i: int| 0 <= i < f0.len() ==> f0[i].0 != pv);
                }
                files.push(TemplateFile { path, content });
                proof {
                    let f1 = file_pairs(files@);
                    assert(f1 =~= f0.push((pv, cv)));
                    assert(f1.last() == (pv, cv));
                    assert(f1.drop_last() =~= f0);
                    assert forall|a: int, b: int| 0 <= a < b < f1.len() implies f1[a].0
                        != f1[b].0 by {
                        if b == f1.len() - 1 {
                            assert(f1[a].0 == f0[a].0);
                        } else {
                            assert(f1[a].0 == f0[a].0 && f1[b].0 == f0[b].0);
                        }
                    }
                    assert forall|p: Seq<char>| #[trigger]
                        pairs_lookup(f1, p) == pairs_lookup(r1, p) by {
                        if p == pv {
                            assert(pairs_lookup(f1, p) == Some(cv));
                            assert(pairs_lookup(r1, p) == Some(cv));
                        } else {
                            assert(pairs_lookup(f1, p) == pairs_lookup(f0, p));
                            assert(pairs_lookup(r1, p) == pairs_lookup(r0, p));
                            assert(pairs_lookup(f0, p) == pairs_lookup(r0, p));
                        }
                    }
                }
            },
        }
        j = j + 1;
    }
    proof {
        assert(templ.files@.take(nf as int) =~= templ.files@);
    }
    files
}

/// Renders every directory path, file path, and file content of the
/// template against the definitions, each independently by the same rule.
/// The rendered files are a mapping from rendered path to rendered content:
/// paths are distinct, and of two files whose paths render equal, the later
/// one wins.
pub fn render_template(templ: ProjectTemplate, defs: &Definitions) -> (r: RenderedTemplate)
    ensures
        r.directories@.len() == templ.directories@.len(),
        forall|i: int|
            0 <= i < templ.directories@.len() ==> r.directories@[i]@ == render_chars(
                templ.directories@[i]@,
                defs@,
            ),
        distinct_paths(file_pairs(r.files@)),
        r.files@.len() <= templ.files@.len(),
        forall|p: Seq<char>| #[trigger]
            pairs_lookup(file_pairs(r.files@), p) == pairs_lookup(
                rendered_pairs(file_pairs(templ.files@), defs@),
                p,
            ),
{
    let nd: usize = templ.directories.len();
    let mut dirs: Vec<String> = Vec::new();
    let mut i: usize = 0;
    while i < nd
        invariant
            nd == templ.directories@.len(),
            i <= nd,
            dirs@.len() == i,
            forall|j: int|
                0 <= j < i ==> dirs@[j]@ == render_chars(templ.directories@[j]@, defs@),
        decreases nd - i,
    {
        dirs.push(render_string(templ.directories[i].as_str(), defs));
        i = i + 1;
    }
    let files: Vec<TemplateFile> = render_files(&templ, defs);
    RenderedTemplate { directories: dirs, files }
}

} // verus!
