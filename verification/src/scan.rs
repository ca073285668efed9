//! The placeholder scanner: the set of variable names syntactically present
//! in a string, and its union over all the strings of a template.
//!
//! `scan_from` walks a string left to right; at each position it either
//! recognizes a well-formed placeholder and records its name, or moves one
//! character on. Malformed or unmatched markers are never matched.

use crate::placeholder::{
    lemma_placeholder_bounds, placeholder_end, placeholder_name,
};
use crate::template::TemplateFile;
use crate::text::{range_eq_str, range_to_string, to_char_vec};
use vstd::prelude::*;

verus! {

/// Names of the placeholders found at or after index `i` of `s`.
pub open spec fn scan_from(s: Seq<char>, i: int) -> Set<Seq<char>>
    decreases s.len() - i,
    via scan_from_dec
{
    if i < 0 || i >= s.len() {
        Set::empty()
    } else {
        match placeholder_end(s, i) {
            Some(e) => scan_from(s, e).insert(placeholder_name(s, i)),
            None => scan_from(s, i + 1),
        }
    }
}

#[via_fn]
proof fn scan_from_dec(s: Seq<char>, i: int) {
    if 0 <= i < s.len() && placeholder_end(s, i) is Some {
        lemma_placeholder_bounds(s, i);
    }
}

/// The set of variable names syntactically present in `s`.
pub open spec fn scan_chars(s: Seq<char>) -> Set<Seq<char>> {
    scan_from(s, 0)
}

/// The set of character sequences held by a sequence of strings.
pub open spec fn views_of(vs: Seq<String>) -> Set<Seq<char>> {
    Set::new(|n: Seq<char>| exists|i: int| 0 <= i < vs.len() && vs[i]@ == n)
}

/// No two strings of `vs` hold the same characters.
pub open spec fn distinct_views(vs: Seq<String>) -> bool {
    forall|a: int, b: int| 0 <= a < b < vs.len() ==> vs[a]@ != vs[b]@
}

/// The path and content of every file, as character sequences.
pub open spec fn file_strings(files: Seq<TemplateFile>) -> Seq<Seq<char>>
    decreases files.len(),
{
    if files.len() == 0 {
        Seq::empty()
    } else {
        file_strings(files.drop_last()).push(files.last().path@).push(files.last().content@)
    }
}

/// The views of a sequence of strings, in order.
pub open spec fn string_views(ss: Seq<String>) -> Seq<Seq<char>> {
    ss.map_values(|s: String| s@)
}

/// The union of the scans of all the given strings.
pub open spec fn scan_all(ss: Seq<Seq<char>>) -> Set<Seq<char>>
    decreases ss.len(),
{
    if ss.len() == 0 {
        Set::empty()
    } else {
        scan_all(ss.drop_last()).union(scan_chars(ss.last()))
    }
}

/// Every string of a template: its directory paths, then each file's path
/// and content.
pub open spec fn template_strings(dirs: Seq<String>, files: Seq<TemplateFile>) -> Seq<Seq<char>> {
    string_views(dirs) + file_strings(files)
}

/// Every variable name appearing in any directory path, file path, or file
/// content of a template.
pub open spec fn template_vars(dirs: Seq<String>, files: Seq<TemplateFile>) -> Set<Seq<char>> {
    scan_all(template_strings(dirs, files))
}

proof fn lemma_views_of_push(vs: Seq<String>, x: String)
    ensures
        views_of(vs.push(x)) =~= views_of(vs).insert(x@),
{
    assert forall|n: Seq<char>| views_of(vs).insert(x@).contains(n) implies views_of(
        vs.push(x),
    ).contains(n) by {
        if n == x@ {
            assert(vs.push(x)[vs.len() as int]@ == n);
        } else {
            let i: int = choose|i: int| 0 <= i < vs.len() && vs[i]@ == n;
            assert(vs.push(x)[i]@ == n);
        }
    }
    assert forall|n: Seq<char>| views_of(vs.push(x)).contains(n) implies views_of(vs).insert(
        x@,
    ).contains(n) by {
        let i: int = choose|i: int| 0 <= i < vs.push(x).len() && vs.push(x)[i]@ == n;
        if i < vs.len() {
            assert(vs[i]@ == n);
        }
    }
}

/// A placeholder carrying `name` starts at index `i` of `s`.
pub open spec fn placeholder_at(s: Seq<char>, i: int, name: Seq<char>) -> bool {
    placeholder_end(s, i) is Some && placeholder_name(s, i) == name
}

proof fn lemma_scan_from_exact(s: Seq<char>, i: int, name: Seq<char>)
    requires
        0 <= i <= s.len(),
    ensures
        scan_from(s, i).contains(name) <==> exists|p: int|
            i <= p < s.len() && placeholder_at(s, p, name),
    decreases s.len() - i,
{
    if i < s.len() {
        match placeholder_end(s, i) {
            Some(e) => {
                lemma_placeholder_bounds(s, i);
                lemma_scan_from_exact(s, e, name);
                if scan_from(s, i).contains(name) {
                    if name == placeholder_name(s, i) {
                        assert(placeholder_at(s, i, name));
                    } else {
                        let p: int = choose|p: int|
                            e <= p < s.len() && placeholder_at(s, p, name);
                        assert(i <= p < s.len() && placeholder_at(s, p, name));
                    }
                }
                if exists|p: int| i <= p < s.len() && placeholder_at(s, p, name) {
                    let p: int = choose|p: int| i <= p < s.len() && placeholder_at(s, p, name);
                    if p == i {
                        assert(scan_from(s, i).contains(name));
                    } else if p < e {
                        crate::placeholder::lemma_placeholder_no_brace_inside(s, i, p);
                        assert(s[p] == '{');
                    } else {
                        assert(scan_from(s, e).contains(name));
                    }
                }
            },
            None => {
                lemma_scan_from_exact(s, i + 1, name);
            },
        }
    }
}

/// Law: the scan of a string holds a name exactly when a well-formed
/// placeholder carrying that name is syntactically present; malformed or
/// unmatched markers contribute nothing.
pub proof fn lemma_scan_exact(s: Seq<char>, name: Seq<char>)
    ensures
        scan_chars(s).contains(name) <==> exists|p: int|
            0 <= p < s.len() && placeholder_at(s, p, name),
{
    lemma_scan_from_exact(s, 0, name);
}

/// Whether some string of `vars` holds exactly the characters `cs[lo..hi]`.
fn contains_range(vars: &Vec<String>, cs: &Vec<char>, lo: usize, hi: usize) -> (b: bool)
    requires
        lo <= hi <= cs@.len(),
    ensures
        b == views_of(vars@).contains(cs@.subrange(lo as int, hi as int)),
{
    let n: usize = vars.len();
    let mut j: usize = 0;
    while j < n
        invariant
            n == vars@.len(),
            j <= n,
            lo <= hi <= cs@.len(),
            forall|a: int| 0 <= a < j ==> vars@[a]@ != cs@.subrange(lo as int, hi as int),
        decreases n - j,
    {
        if range_eq_str(cs, lo, hi, vars[j].as_str()) {
            return true;
        }
        j = j + 1;
    }
    false
}

/// Adds every variable name scanned from `s` that `vars` does not already
/// hold, keeping the entries distinct.
fn merge_vars(vars: &mut Vec<String>, s: &str)
    requires
        distinct_views(old(vars)@),
    ensures
        views_of(final(vars)@) =~= views_of(old(vars)@).union(scan_chars(s@)),
        distinct_views(final(vars)@),
{
    let cs: Vec<char> = to_char_vec(s);
    let n: usize = cs.len();
    let mut i: usize = 0;
    while i < n
        invariant
            cs@ == s@,
            i <= n == cs@.len(),
            views_of(vars@).union(scan_from(cs@, i as int)) =~= views_of(old(vars)@).union(
                scan_chars(s@),
            ),
            distinct_views(vars@),
        decreases n - i,
    {
        match crate::placeholder::find_placeholder(&cs, i) {
            Some((ns, ne, e)) => {
                let ghost name: Seq<char> = cs@.subrange(ns as int, ne as int);
                if !contains_range(vars, &cs, ns, ne) {
                    let nm: String = range_to_string(&cs, ns, ne);
                    proof {
                        lemma_views_of_push(vars@, nm);
                    }
                    vars.push(nm);
                }
                proof {
                    assert(views_of(vars@).union(scan_from(cs@, e as int)) =~= views_of(
                        old(vars)@,
                    ).union(scan_chars(s@)));
                }
                i = e;
            },
            None => {
                i = i + 1;
            },
        }
    }
    proof {
        assert(views_of(vars@).union(scan_from(cs@, n as int)) =~= views_of(vars@));
    }
}

/// The distinct variable names syntactically present in `s`, in order of
/// first appearance.
pub fn get_vars_from_string(s: &str) -> (vars: Vec<String>)
    ensures
        views_of(vars@) =~= scan_chars(s@),
        distinct_views(vars@),
{
    let mut vars: Vec<String> = Vec::new();
    proof {
        assert(views_of(vars@) =~= Set::<Seq<char>>::empty());
    }
    merge_vars(&mut vars, s);
    vars
}

/// The distinct variable names appearing in any directory path, file path,
/// or file content.
pub fn get_template_vars(dirs: &Vec<String>, files: &Vec<TemplateFile>) -> (vars: Vec<String>)
    ensures
        views_of(vars@) =~= template_vars(dirs@, files@),
        distinct_views(vars@),
{
    let mut vars: Vec<String> = Vec::new();
    proof {
        assert(views_of(vars@) =~= Set::<Seq<char>>::empty());
        assert(string_views(dirs@.take(0)) =~= Seq::<Seq<char>>::empty());
    }
    let nd: usize = dirs.len();
    let mut i: usize = 0;
    while i < nd
        invariant
            nd == dirs@.len(),
            i <= nd,
            views_of(vars@) =~= scan_all(string_views(dirs@.take(i as int))),
            distinct_views(vars@),
        decreases nd - i,
    {
        merge_vars(&mut vars, dirs[i].as_str());
        i = i + 1;
        proof {
            assert(string_views(dirs@.take(i as int)).drop_last() =~= string_views(
                dirs@.take(i as int - 1),
            ));
            assert(string_views(dirs@.take(i as int)).last() == dirs@[i as int - 1]@);
        }
    }
    proof {
        assert(dirs@.take(nd as int) =~= dirs@);
        assert(file_strings(files@.take(0)) =~= Seq::<Seq<char>>::empty());
        assert(string_views(dirs@) + file_strings(files@.take(0)) =~= string_views(dirs@));
    }
    let nf: usize = files.len();
    let mut j: usize = 0;
    while j < nf
        invariant
            nf == files@.len(),
            j <= nf,
            views_of(vars@) =~= scan_all(string_views(dirs@) + file_strings(files@.take(j as int))),
            distinct_views(vars@),
        decreases nf - j,
    {
        let ghost prev: Seq<Seq<char>> = string_views(dirs@) + file_strings(files@.take(j as int));
        let ghost v0: Set<Seq<char>> = views_of(vars@);
        merge_vars(&mut vars, files[j].path.as_str());
        let ghost v1: Set<Seq<char>> = views_of(vars@);
        merge_vars(&mut vars, files[j].content.as_str());
        proof {
            let f: TemplateFile = files@[j as int];
            assert(files@.take(j as int + 1).drop_last() =~= files@.take(j as int));
            assert(files@.take(j as int + 1).last() == f);
            let cur: Seq<Seq<char>> = string_views(dirs@) + file_strings(
                files@.take(j as int + 1),
            );
            assert(cur =~= prev.push(f.path@).push(f.content@));
            assert(cur.drop_last() =~= prev.push(f.path@));
            assert(prev.push(f.path@).drop_last() =~= prev);
            assert(scan_all(prev.push(f.path@)) =~= scan_all(prev).union(scan_chars(f.path@)));
            assert(scan_all(cur) =~= scan_all(cur.drop_last()).union(scan_chars(f.content@)));
            assert(v1 =~= v0.union(scan_chars(f.path@)));
            assert(views_of(vars@) =~= v1.union(scan_chars(f.content@)));
            assert(views_of(vars@) =~= scan_all(cur));
        }
        j = j + 1;
    }
    proof {
        assert(files@.take(nf as int) =~= files@);
    }
    vars
}

} // verus!
