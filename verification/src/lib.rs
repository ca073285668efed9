//! Project template engine: capture a directory tree as a parameterized
//! template, and render such a template against a map of variable
//! definitions.
//!
//! A placeholder is a span of the form `{@ name @}` (interior whitespace
//! optional) inside a directory path, file path, or file content. Rendering
//! substitutes defined variables, leaves unresolved placeholders as literal
//! text, preserves stray braces, and strips stray `@` characters.

pub mod capture;
pub mod materialize;
pub mod placeholder;
pub mod render;
pub mod scan;
pub mod template;
pub mod text;

use crate::render::{
    distinct_paths, lemma_pairs_lookup_at, lemma_pairs_lookup_update_other, pairs_lookup,
    render_chars, render_string, rendered_pairs, Definitions,
};
use vstd::prelude::*;

verus! {

/// A single file of a hand-authored template: a relative,
/// placeholder-bearing path together with its placeholder-bearing content.
#[derive(PartialEq, Eq)]
pub struct TemplateFile {
    pub path: String,
    pub content: String,
}

/// A project template as persisted: the variable and directory lists may be
/// absent altogether. An absent or incomplete variable list is advisory
/// only; the renderer does not require completeness.
pub struct ProjectTemplate {
    pub variables: Option<Vec<String>>,
    pub directories: Option<Vec<String>>,
    pub files: Vec<TemplateFile>,
}

/// The output of rendering a persisted template: relative directory paths
/// and rendered files.
pub struct RenderedTemplate {
    pub directories: Vec<String>,
    pub files: Vec<TemplateFile>,
}

/// A rendered output failed the write-safety rules or could not be written.
#[derive(Debug, Clone)]
pub struct ProjectWriteError;

/// A persisted template could not be loaded.
#[derive(Debug, Clone)]
pub struct TemplateLoadError;

/// A sequence of persisted-form files as path/content view pairs, in order.
pub open spec fn file_pairs(files: Seq<TemplateFile>) -> Seq<(Seq<char>, Seq<char>)> {
    files.map_values(|f: TemplateFile| (f.path@, f.content@))
}

/// The index of the first file whose path equals `path`, if any.
fn find_file(files: &Vec<TemplateFile>, path: &str) -> (r: Option<usize>)
    ensures
        match r {
            Some(i) => i < files@.len() && files@[i as int].path@ == path@,
            None => forall|i: int| 0 <= i < files@.len() ==> files@[i].path@ != path@,
        },
{
    let n: usize = files.len();
    let mut i: usize = 0;
    while i < n
        invariant
            n == files@.len(),
            i <= n,
            forall|k: int| 0 <= k < i ==> files@[k].path@ != path@,
        decreases n - i,
    {
        if crate::text::str_eq(files[i].path.as_str(), path) {
            return Some(i);
        }
        i = i + 1;
    }
    None
}

/// Renders every directory path, file path, and file content of a persisted
/// template against the definitions; an absent directory list renders as no
/// directories. Unresolved placeholders stay as their raw text, so rendering
/// cannot fail. The rendered files are a mapping from rendered path to
/// rendered content: paths are distinct, and of two files whose paths render
/// equal, the later one wins.
pub fn render(templ: &ProjectTemplate, defs: &Definitions) -> (r: RenderedTemplate)
    ensures
        match templ.directories {
            Some(ds) => r.directories@.len() == ds@.len() && forall|i: int|
                0 <= i < ds@.len() ==> r.directories@[i]@ == render_chars(ds@[i]@, defs@),
            None => r.directories@.len() == 0,
        },
        distinct_paths(file_pairs(r.files@)),
        r.files@.len() <= templ.files@.len(),
        forall|p: Seq<char>| #[trigger]
            pairs_lookup(file_pairs(r.files@), p) == pairs_lookup(
                rendered_pairs(file_pairs(templ.files@), defs@),
                p,
            ),
{
    let mut dirs: Vec<String> = Vec::new();
    match &templ.directories {
        Some(ds) => {
            let nd: usize = ds.len();
            let mut i: usize = 0;
            while i < nd
                invariant
                    nd == ds@.len(),
                    i <= nd,
                    dirs@.len() == i,
                    forall|j: int| 0 <= j < i ==> dirs@[j]@ == render_chars(ds@[j]@, defs@),
                decreases nd - i,
            {
                dirs.push(render_string(ds[i].as_str(), defs));
                i = i + 1;
            }
        },
        None => {},
    }
    let nf: usize = templ.files.len();
    let mut files: Vec<TemplateFile> = Vec::new();
    let mut j: usize = 0;
    proof {
        assert(file_pairs(files@) =~= Seq::<(Seq<char>, Seq<char>)>::empty());
        assert(file_pairs(templ.files@.take(0)) =~= Seq::<(Seq<char>, Seq<char>)>::empty());
        assert(rendered_pairs(file_pairs(templ.files@.take(0)), defs@) =~= Seq::<
            (Seq<char>, Seq<char>),
        >::empty());
    }
    while j < nf
        invariant
            nf == templ.files@.len(),
            j <= nf,
            files@.len() <= j,
            distinct_paths(file_pairs(files@)),
            forall|p: Seq<char>| #[trigger]
                pairs_lookup(file_pairs(files@), p) == pairs_lookup(
                    rendered_pairs(file_pairs(templ.files@.take(j as int)), defs@),
                    p,
                ),
        decreases nf - j,
    {
        let path: String = render_string(templ.files[j].path.as_str(), defs);
        let content: String = render_string(templ.files[j].content.as_str(), defs);
        let ghost pv: Seq<char> = path@;
        let ghost cv: Seq<char> = content@;
        let ghost f0: Seq<(Seq<char>, Seq<char>)> = file_pairs(files@);
        let ghost r0: Seq<(Seq<char>, Seq<char>)> = rendered_pairs(
            file_pairs(templ.files@.take(j as int)),
            defs@,
        );
        let ghost r1: Seq<(Seq<char>, Seq<char>)> = rendered_pairs(
            file_pairs(templ.files@.take(j as int + 1)),
            defs@,
        );
        proof {
            assert(templ.files@.take(j as int + 1).drop_last() =~= templ.files@.take(j as int));
            assert(r1 =~= r0.push((pv, cv)));
            assert(r1.last() == (pv, cv));
            assert(r1.drop_last() =~= r0);
        }
        match find_file(&files, path.as_str()) {
            Some(idx) => {
                files.set(idx, TemplateFile { path, content });
                proof {
                    let f1 = file_pairs(files@);
                    assert(f1 =~= f0.update(idx as int, (pv, cv)));
                    assert(f0[idx as int].0 == pv);
                    assert forall|a: int, b: int| 0 <= a < b < f1.len() implies f1[a].0
                        != f1[b].0 by {
                        assert(f1[a].0 == f0[a].0 && f1[b].0 == f0[b].0);
                    }
                    assert forall|p: Seq<char>| #[trigger]
                        pairs_lookup(f1, p) == pairs_lookup(r1, p) by {
                        if p == pv {
                            lemma_pairs_lookup_at(f1, idx as int, p);
                            assert(pairs_lookup(r1, p) == Some(cv));
                        } else {
                            lemma_pairs_lookup_update_other(f0, idx as int, (pv, cv), p);
                            assert(pairs_lookup(r1, p) == pairs_lookup(r0, p));
                            assert(pairs_lookup(f0, p) == pairs_lookup(r0, p));
                        }
                    }
                }
            },
            None => {
                proof {
                    assert(forall|i: int| 0 <= i < f0.len() ==> f0[i].0 != pv);
                }
                files.push(TemplateFile { path, content });
                proof {
                    let f1 = file_pairs(files@);
                    assert(f1 =~= f0.push((pv, cv)));
                    assert(f1.last() == (pv, cv));
                    assert(f1.drop_last() =~= f0);
                    assert forall|a: int, b: int| 0 <= a < b < f1.len() implies f1[a].0
                        != f1[b].0 by {
                        if b == f1.len() - 1 {
                            assert(f1[a].0 == f0[a].0);
                        } else {
                            assert(f1[a].0 == f0[a].0 && f1[b].0 == f0[b].0);
                        }
                    }
                    assert forall|p: Seq<char>| #[trigger]
                        pairs_lookup(f1, p) == pairs_lookup(r1, p) by {
                        if p == pv {
                            assert(pairs_lookup(f1, p) == Some(cv));
                            assert(pairs_lookup(r1, p) == Some(cv));
                        } else {
                            assert(pairs_lookup(f1, p) == pairs_lookup(f0, p));
                            assert(pairs_lookup(r1, p) == pairs_lookup(r0, p));
                            assert(pairs_lookup(f0, p) == pairs_lookup(r0, p));
                        }
                    }
                }
            },
        }
        j = j + 1;
    }
    proof {
        assert(templ.files@.take(nf as int) =~= templ.files@);
    }
    RenderedTemplate { directories: dirs, files }
}

} // verus!
