//! The compute side of capturing a directory tree: newline normalization,
//! and assembly of the template from the collected relative paths and file
//! contents, with its variable list scanned from every string.
//!
//! Walking the filesystem and reading files happen outside this library;
//! they hand in plain relative path strings and contents.

use crate::scan::{distinct_views, get_template_vars, template_vars, views_of};
use crate::template::{ProjectTemplate, TemplateFile};
use crate::text::{push_char, to_char_vec};
use vstd::prelude::*;
use vstd::string::StringExecFns;

verus! {

/// Why capturing a directory into a template file failed.
pub enum FromDirectoryError {
    /// A file already exists at the output path and overwriting was not
    /// allowed.
    OutputAlreadyExists(String),
    /// The output file could not be created.
    OutputFileCreationError(String),
    /// A file's content could not be read as text.
    FileReadError(String, String),
    /// A path could not be made relative to the root or is not valid text.
    PathConversionError(String),
    /// A directory entry could not be listed.
    PathReadError(Option<String>),
    /// A filesystem entry is neither a file nor a directory (a symlink or a
    /// device file, for instance).
    UnsupportedEntryType(String),
    /// The template file could not be written.
    TemplateFileCreationError,
    /// The template could not be serialized.
    SerializationError,
}

impl FromDirectoryError {
    /// The user-visible description of this error.
    pub open spec fn message_spec(&self) -> Seq<char> {
        match self {
            FromDirectoryError::OutputAlreadyExists(_) => "File already exists at output"@,
            FromDirectoryError::OutputFileCreationError(_) => "Output file could not be created"@,
            FromDirectoryError::FileReadError(_, _) => "Unable to read content from file"@,
            FromDirectoryError::PathConversionError(_) => "Unable to convert path to string"@,
            FromDirectoryError::PathReadError(_) => "Unable to read path in directory"@,
            FromDirectoryError::UnsupportedEntryType(_) => "Unsupported entry type"@,
            FromDirectoryError::TemplateFileCreationError => "Error creating template file"@,
            FromDirectoryError::SerializationError => "Error generating yaml"@,
        }
    }

    /// The user-visible description of this error.
    pub fn message(&self) -> (m: String)
        ensures
            m@ == self.message_spec(),
    {
        match self {
            FromDirectoryError::OutputAlreadyExists(_) => String::from_str(
                "File already exists at output",
            ),
            FromDirectoryError::OutputFileCreationError(_) => String::from_str(
                "Output file could not be created",
            ),
            FromDirectoryError::FileReadError(_, _) => String::from_str(
                "Unable to read content from file",
            ),
            FromDirectoryError::PathConversionError(_) => String::from_str(
                "Unable to convert path to string",
            ),
            FromDirectoryError::PathReadError(_) => String::from_str(
                "Unable to read path in directory",
            ),
            FromDirectoryError::UnsupportedEntryType(_) => String::from_str(
                "Unsupported entry type",
            ),
            FromDirectoryError::TemplateFileCreationError => String::from_str(
                "Error creating template file",
            ),
            FromDirectoryError::SerializationError => String::from_str("Error generating yaml"),
        }
    }
}

/// `s` from index `i` on, with every `CRLF` pair replaced by a single `LF`.
pub open spec fn normalize_from(s: Seq<char>, i: int) -> Seq<char>
    decreases s.len() - i,
{
    if i < 0 || i >= s.len() {
        Seq::empty()
    } else if i + 1 < s.len() && s[i] == '\r' && s[i + 1] == '\n' {
        seq!['\n'] + normalize_from(s, i + 2)
    } else {
        seq![s[i]] + normalize_from(s, i + 1)
    }
}

/// `s` with every `CRLF` pair replaced by a single `LF`.
pub open spec fn normalize_crlf(s: Seq<char>) -> Seq<char> {
    normalize_from(s, 0)
}

/// Replaces every `CRLF` pair in `s` by a single `LF`, so that captured
/// templates stay portable across platforms.
pub fn normalize_newlines(s: &str) -> (out: String)
    ensures
        out@ == normalize_crlf(s@),
{
    let cs: Vec<char> = to_char_vec(s);
    let n: usize = cs.len();
    let mut out: String = String::new();
    let mut i: usize = 0;
    while i < n
        invariant
            cs@ == s@,
            i <= n == cs@.len(),
            normalize_crlf(s@) == out@ + normalize_from(cs@, i as int),
        decreases n - i,
    {
        let ghost out0: Seq<char> = out@;
        if i + 1 < n && cs[i] == '\r' && cs[i + 1] == '\n' {
            push_char(&mut out, '\n');
            proof {
                assert(out@ + normalize_from(cs@, i as int + 2) =~= out0 + normalize_from(
                    cs@,
                    i as int,
                ));
            }
            i = i + 2;
        } else {
            push_char(&mut out, cs[i]);
            proof {
                assert(out@ + normalize_from(cs@, i as int + 1) =~= out0 + normalize_from(
                    cs@,
                    i as int,
                ));
            }
            i = i + 1;
        }
    }
    proof {
        assert(out@ + normalize_from(cs@, n as int) =~= out@);
    }
    out
}

/// The subsequence of nonempty strings of `ss`, in order.
pub open spec fn nonempty_strings(ss: Seq<String>) -> Seq<String>
    decreases ss.len(),
{
    if ss.len() == 0 {
        Seq::empty()
    } else if ss.last()@.len() == 0 {
        nonempty_strings(ss.drop_last())
    } else {
        nonempty_strings(ss.drop_last()).push(ss.last())
    }
}

/// Assembles a captured template from the collected relative directory
/// paths and files: the empty relative path of the root itself is dropped,
/// and the variable list is the scan of every directory path, file path,
/// and file content.
pub fn build_template(dirs: Vec<String>, files: Vec<TemplateFile>) -> (t: ProjectTemplate)
    ensures
        t.directories@ == nonempty_strings(dirs@),
        t.files == files,
        views_of(t.variables@) == template_vars(t.directories@, t.files@),
        distinct_views(t.variables@),
{
    let nd: usize = dirs.len();
    let mut kept: Vec<String> = Vec::new();
    let mut i: usize = 0;
    proof {
        assert(dirs@.take(0) =~= Seq::<String>::empty());
    }
    while i < nd
        invariant
            nd == dirs@.len(),
            i <= nd,
            kept@ == nonempty_strings(dirs@.take(i as int)),
        decreases nd - i,
    {
        proof {
            assert(dirs@.take(i as int + 1).drop_last() =~= dirs@.take(i as int));
            assert(dirs@.take(i as int + 1).last() == dirs@[i as int]);
        }
        if !dirs[i].as_str().is_empty() {
            kept.push(dirs[i].clone());
        }
        i = i + 1;
    }
    proof {
        assert(dirs@.take(nd as int) =~= dirs@);
    }
    let variables: Vec<String> = get_template_vars(&kept, &files);
    ProjectTemplate { variables, directories: kept, files }
}

} // verus!
