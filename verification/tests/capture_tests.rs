use pgen::capture::{build_template, normalize_newlines, FromDirectoryError};
use pgen::render::{render_template, Definitions};
use pgen::template::TemplateFile;
use std::collections::HashSet;

#[test]
fn normalize_replaces_crlf_pairs() {
    assert_eq!(normalize_newlines("a\r\nb\r\nc"), "a\nb\nc");
    assert_eq!(normalize_newlines("no endings"), "no endings");
    assert_eq!(normalize_newlines(""), "");
    // A bare carriage return or line feed is kept as it is.
    assert_eq!(normalize_newlines("a\rb\nc"), "a\rb\nc");
    assert_eq!(normalize_newlines("\r\n\r\n"), "\n\n");
    assert_eq!(normalize_newlines("a\r\r\nb"), "a\r\nb");
}

#[test]
fn build_template_collects_variables() {
    let dirs = vec!["{@ namespace @}".to_string(), "src".to_string()];
    let files = vec![TemplateFile {
        path: "src/{@project_name@}.cpp".to_string(),
        content: "hello {@author@}".to_string(),
    }];

    let t = build_template(dirs.clone(), files);

    assert_eq!(t.directories, dirs);
    let vars: HashSet<String> = t.variables.into_iter().collect();
    assert!(
        vars == HashSet::from([
            "namespace".to_string(),
            "project_name".to_string(),
            "author".to_string()
        ])
    );
}

#[test]
fn build_template_drops_empty_root_path() {
    let dirs = vec!["".to_string(), "src".to_string()];
    let t = build_template(dirs, Vec::new());
    assert_eq!(t.directories, vec!["src".to_string()]);
}

#[test]
fn capture_then_render_round_trip() {
    // Rendering a captured template with every variable mapped to its own
    // name reproduces the captured strings with only the markers removed.
    let dirs = vec!["{@ns@}".to_string(), "src".to_string()];
    let files = vec![TemplateFile {
        path: "src/{@name@}.cpp".to_string(),
        content: "hello {@ name @} of {@ns@}".to_string(),
    }];

    let t = build_template(dirs, files);

    let mut defs = Definitions::new();
    for v in &t.variables {
        defs.insert(v.clone(), v.clone());
    }

    let rendered = render_template(t, &defs);

    assert_eq!(
        rendered.directories,
        vec!["ns".to_string(), "src".to_string()]
    );
    assert_eq!(rendered.files.len(), 1);
    assert_eq!(rendered.files[0].path, "src/name.cpp");
    assert_eq!(rendered.files[0].content, "hello name of ns");
}

#[test]
fn from_directory_error_messages() {
    assert_eq!(
        FromDirectoryError::OutputAlreadyExists("out.yaml".to_string()).message(),
        "File already exists at output"
    );
    assert_eq!(
        FromDirectoryError::OutputFileCreationError("out.yaml".to_string()).message(),
        "Output file could not be created"
    );
    assert_eq!(
        FromDirectoryError::FileReadError("a.txt".to_string(), "denied".to_string()).message(),
        "Unable to read content from file"
    );
    assert_eq!(
        FromDirectoryError::PathConversionError("p".to_string()).message(),
        "Unable to convert path to string"
    );
    assert_eq!(
        FromDirectoryError::PathReadError(None).message(),
        "Unable to read path in directory"
    );
    assert_eq!(
        FromDirectoryError::UnsupportedEntryType("dev/null".to_string()).message(),
        "Unsupported entry type"
    );
    assert_eq!(
        FromDirectoryError::TemplateFileCreationError.message(),
        "Error creating template file"
    );
    assert_eq!(
        FromDirectoryError::SerializationError.message(),
        "Error generating yaml"
    );
}
