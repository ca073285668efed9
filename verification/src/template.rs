//! The template model: a captured project template and a rendered output.

use vstd::prelude::*;

verus! {

/// A single captured file: a relative, placeholder-bearing path together
/// with its placeholder-bearing content.
#[derive(PartialEq, Eq)]
pub struct TemplateFile {
    pub path: String,
    pub content: String,
}

/// A captured project template: the variable names it references, the
/// relative paths of its directories, and its files.
pub struct ProjectTemplate {
    pub variables: Vec<String>,
    pub directories: Vec<String>,
    pub files: Vec<TemplateFile>,
}

/// A rendered output: relative directory paths and rendered files, produced
/// fresh by one render call and consumed by the materializer.
pub struct RenderedTemplate {
    pub directories: Vec<String>,
    pub files: Vec<TemplateFile>,
}

impl RenderedTemplate {
    /// The content of the first rendered file whose path equals `path`.
    pub fn get_file(&self, path: &str) -> (r: Option<&String>)
        ensures
            match r {
                Some(c) => exists|i: int|
                    0 <= i < self.files@.len() && self.files@[i].path@ == path@
                        && self.files@[i].content == *c,
                None => forall|i: int|
                    0 <= i < self.files@.len() ==> self.files@[i].path@ != path@,
            },
    {
        let n: usize = self.files.len();
        let mut i: usize = 0;
        while i < n
            invariant
                n == self.files@.len(),
                i <= n,
                forall|j: int| 0 <= j < i ==> self.files@[j].path@ != path@,
            decreases n - i,
        {
            if crate::text::str_eq(self.files[i].path.as_str(), path) {
                return Some(&self.files[i].content);
            }
            i = i + 1;
        }
        None
    }

    /// Whether some rendered directory path equals `path`.
    pub fn has_directory(&self, path: &str) -> (b: bool)
        ensures
            b == exists|i: int| 0 <= i < self.directories@.len() && self.directories@[i]@ == path@,
    {
        let n: usize = self.directories.len();
        let mut i: usize = 0;
        while i < n
            invariant
                n == self.directories@.len(),
                i <= n,
                forall|j: int| 0 <= j < i ==> self.directories@[j]@ != path@,
            decreases n - i,
        {
            if crate::text::str_eq(self.directories[i].as_str(), path) {
                proof {
                    assert(self.directories@[i as int]@ == path@);
                }
                return true;
            }
            i = i + 1;
        }
        false
    }
}

} // verus!
