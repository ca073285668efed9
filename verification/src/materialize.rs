//! The write-safety rules for a rendered output: every rendered directory
//! and file path must be a relative path that stays inside the destination
//! root. Validation is pure; the writes themselves, and the on-disk checks
//! (destination exists, symlinks), happen outside this library.

use crate::template::RenderedTemplate;
use vstd::prelude::*;
use vstd::string::StringExecFns;

verus! {

/// Why generating a project from a template failed.
pub enum GenerationError {
    /// The destination root already exists.
    RootExistsError(String),
    /// The template file could not be opened.
    TemplateFileError(String),
    /// The template file could not be parsed.
    TemplateReadError(String),
    /// The definitions file could not be opened.
    DefsFileError(String),
    /// The definitions file could not be parsed.
    DefsReadError(String),
    /// The template could not be rendered.
    TemplateRenderError,
    /// A rendered path is absolute or escapes the destination root, or the
    /// target exists or is a symlink.
    UnsafeRenderTarget(String),
    /// A rendered directory or file could not be written.
    TemplateWriteError(String),
    /// A parent directory of a rendered file could not be created.
    ParentDirectoryCreateError(String),
}

impl GenerationError {
    /// The user-visible description of this error.
    pub open spec fn message_spec(&self) -> Seq<char> {
        match self {
            GenerationError::RootExistsError(_) => "Root already exists"@,
            GenerationError::TemplateFileError(_) => "Error opening template file"@,
            GenerationError::TemplateReadError(_) => "Unable to read template"@,
            GenerationError::DefsFileError(_) => "Error opening definitions file"@,
            GenerationError::DefsReadError(_) => "Unable to read defs"@,
            GenerationError::TemplateRenderError => "Error rendering template"@,
            GenerationError::UnsafeRenderTarget(_) => "Unsafe render target"@,
            GenerationError::TemplateWriteError(_) => "Error writing template to destination"@,
            GenerationError::ParentDirectoryCreateError(_) => "Error creating parent directory"@,
        }
    }

    /// The user-visible description of this error.
    pub fn message(&self) -> (m: String)
        ensures
            m@ == self.message_spec(),
    {
        match self {
            GenerationError::RootExistsError(_) => String::from_str("Root already exists"),
            GenerationError::TemplateFileError(_) => String::from_str(
                "Error opening template file",
            ),
            GenerationError::TemplateReadError(_) => String::from_str("Unable to read template"),
            GenerationError::DefsFileError(_) => String::from_str("Error opening definitions file"),
            GenerationError::DefsReadError(_) => String::from_str("Unable to read defs"),
            GenerationError::TemplateRenderError => String::from_str("Error rendering template"),
            GenerationError::UnsafeRenderTarget(_) => String::from_str("Unsafe render target"),
            GenerationError::TemplateWriteError(_) => String::from_str(
                "Error writing template to destination",
            ),
            GenerationError::ParentDirectoryCreateError(_) => String::from_str(
                "Error creating parent directory",
            ),
        }
    }
}

/// First index at or after `i` of `s` that holds a path separator, or the
/// length of `s`.
pub open spec fn comp_end(s: Seq<char>, i: int) -> int
    decreases s.len() - i,
{
    if 0 <= i && i < s.len() && s[i] != '/' {
        comp_end(s, i + 1)
    } else {
        i
    }
}

proof fn lemma_comp_end(s: Seq<char>, i: int)
    requires
        0 <= i <= s.len(),
    ensures
        i <= comp_end(s, i) <= s.len(),
    decreases s.len() - i,
{
    if i < s.len() && s[i] != '/' {
        lemma_comp_end(s, i + 1);
    }
}

/// Whether the path components of `s` from index `i` on never traverse
/// above `depth` directory levels: `..` steps one level up and must not
/// leave the root, `.` and empty components stay put, any other component
/// steps one level down.
pub open spec fn safe_from(s: Seq<char>, i: int, depth: int) -> bool
    decreases s.len() - i,
    via safe_from_dec
{
    if !(0 <= i <= s.len()) {
        true
    } else {
        let e = comp_end(s, i);
        let c = s.subrange(i, e);
        if c == seq!['.', '.'] {
            if depth <= 0 {
                false
            } else if e >= s.len() {
                true
            } else {
                safe_from(s, e + 1, depth - 1)
            }
        } else if c.len() == 0 || c == seq!['.'] {
            if e >= s.len() {
                true
            } else {
                safe_from(s, e + 1, depth)
            }
        } else {
            if e >= s.len() {
                true
            } else {
                safe_from(s, e + 1, depth + 1)
            }
        }
    }
}

#[via_fn]
proof fn safe_from_dec(s: Seq<char>, i: int, depth: int) {
    if 0 <= i <= s.len() {
        lemma_comp_end(s, i);
    }
}

/// Whether `s` is a nonempty relative path that resolves inside the
/// directory it is joined to: not absolute, and no parent traversal ever
/// leaves that directory.
pub open spec fn is_safe_rel_path(s: Seq<char>) -> bool {
    s.len() > 0 && s[0] != '/' && safe_from(s, 0, 0)
}

/// First index at or after `i` of `cs` that holds a path separator.
fn comp_end_exec(cs: &Vec<char>, i: usize) -> (e: usize)
    requires
        i <= cs@.len(),
    ensures
        e == comp_end(cs@, i as int),
        i <= e <= cs@.len(),
{
    let n: usize = cs.len();
    let mut e: usize = i;
    while e < n
        invariant_except_break
            i <= e <= n == cs@.len(),
            comp_end(cs@, i as int) == comp_end(cs@, e as int),
        ensures
            i <= e <= n,
            e == comp_end(cs@, i as int),
        decreases n - e,
    {
        if cs[e] == '/' {
            break ;
        }
        e = e + 1;
    }
    e
}

/// Decides whether `path` is a safe relative path for materialization.
pub fn path_is_safe(path: &str) -> (b: bool)
    ensures
        b == is_safe_rel_path(path@),
{
    let cs: Vec<char> = crate::text::to_char_vec(path);
    let n: usize = cs.len();
    if n == 0 {
        return false;
    }
    if cs[0] == '/' {
        return false;
    }
    let mut i: usize = 0;
    let mut depth: usize = 0;
    loop
        invariant
            cs@ == path@,
            i <= n == cs@.len(),
            depth <= i,
            is_safe_rel_path(path@) == safe_from(cs@, i as int, depth as int),
        decreases n - i,
    {
        let e: usize = comp_end_exec(&cs, i);
        let clen: usize = e - i;
        let ghost comp: Seq<char> = cs@.subrange(i as int, e as int);
        if clen == 2 && cs[i] == '.' && cs[i + 1] == '.' {
            proof {
                assert(comp =~= seq!['.', '.']);
            }
            if depth == 0 {
                return false;
            }
            depth = depth - 1;
        } else if clen == 0 || (clen == 1 && cs[i] == '.') {
            proof {
                assert(comp.len() < 2);
                assert(comp != seq!['.', '.']);
                if clen == 1 {
                    assert(comp =~= seq!['.']);
                }
            }
        } else {
            proof {
                assert(comp.len() == clen);
                if clen == 2 {
                    assert(comp[0] == cs@[i as int] && comp[1] == cs@[i as int + 1]);
                    assert(comp != seq!['.', '.']);
                }
                if clen == 1 {
                    assert(comp[0] == cs@[i as int]);
                    assert(comp != seq!['.']);
                }
                assert(!(comp == seq!['.', '.']) && !(comp.len() == 0) && !(comp == seq!['.']));
            }
            depth = depth + 1;
        }
        if e >= n {
            return true;
        }
        i = e + 1;
    }
}

/// Validates every rendered directory path and rendered file path against
/// the write-safety rules; on failure, names an offending path and no write
/// may take place.
pub fn validate_rendered(rendered: &RenderedTemplate) -> (res: Result<(), GenerationError>)
    ensures
        (res is Ok) == ((forall|i: int|
            0 <= i < rendered.directories@.len() ==> is_safe_rel_path(rendered.directories@[i]@))
            && (forall|i: int|
            0 <= i < rendered.files@.len() ==> is_safe_rel_path(rendered.files@[i].path@))),
        match res {
            Ok(()) => true,
            Err(e) => e matches GenerationError::UnsafeRenderTarget(p) && !is_safe_rel_path(p@)
                && ((exists|i: int|
                0 <= i < rendered.directories@.len() && rendered.directories@[i]@ == p@) || (
            exists|i: int|
                0 <= i < rendered.files@.len() && rendered.files@[i].path@ == p@)),
        },
{
    let nd: usize = rendered.directories.len();
    let mut i: usize = 0;
    while i < nd
        invariant
            nd == rendered.directories@.len(),
            i <= nd,
            forall|j: int| 0 <= j < i ==> is_safe_rel_path(rendered.directories@[j]@),
        decreases nd - i,
    {
        if !path_is_safe(rendered.directories[i].as_str()) {
            return Err(GenerationError::UnsafeRenderTarget(rendered.directories[i].clone()));
        }
        i = i + 1;
    }
    let nf: usize = rendered.files.len();
    let mut j: usize = 0;
    while j < nf
        invariant
            nf == rendered.files@.len(),
            j <= nf,
            forall|k: int| 0 <= k < j ==> is_safe_rel_path(rendered.files@[k].path@),
        decreases nf - j,
    {
        if !path_is_safe(rendered.files[j].path.as_str()) {
            return Err(GenerationError::UnsafeRenderTarget(rendered.files[j].path.clone()));
        }
        j = j + 1;
    }
    Ok(())
}

} // verus!
