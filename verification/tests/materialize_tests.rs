use pgen::materialize::{path_is_safe, validate_rendered, GenerationError};
use pgen::template::{RenderedTemplate, TemplateFile};

#[test]
fn safe_paths_accepted() {
    assert!(path_is_safe("src/main.cpp"));
    assert!(path_is_safe("a"));
    assert!(path_is_safe("a/b/c"));
    // `..` that stays inside the root is allowed.
    assert!(path_is_safe("a/../b"));
    assert!(path_is_safe("./a"));
    assert!(path_is_safe("a//b"));
}

#[test]
fn escaping_paths_rejected() {
    assert!(!path_is_safe("../escape.txt"));
    assert!(!path_is_safe("a/../../b"));
    assert!(!path_is_safe("a/b/../../../c"));
    assert!(!path_is_safe(".."));
}

#[test]
fn absolute_and_empty_paths_rejected() {
    assert!(!path_is_safe("/etc/passwd"));
    assert!(!path_is_safe("/"));
    assert!(!path_is_safe(""));
}

#[test]
fn validate_accepts_safe_rendered_output() {
    let rendered = RenderedTemplate {
        directories: vec!["src".to_string(), "docs".to_string()],
        files: vec![TemplateFile {
            path: "src/main.cpp".to_string(),
            content: "hello".to_string(),
        }],
    };
    assert!(validate_rendered(&rendered).is_ok());
}

#[test]
fn validate_rejects_escaping_file_path() {
    let rendered = RenderedTemplate {
        directories: vec!["src".to_string()],
        files: vec![TemplateFile {
            path: "../escape.txt".to_string(),
            content: "out".to_string(),
        }],
    };
    match validate_rendered(&rendered) {
        Err(GenerationError::UnsafeRenderTarget(p)) => assert_eq!(p, "../escape.txt"),
        _ => panic!("expected an unsafe render target error"),
    }
}

#[test]
fn validate_rejects_escaping_directory() {
    let rendered = RenderedTemplate {
        directories: vec!["../outside".to_string()],
        files: Vec::new(),
    };
    match validate_rendered(&rendered) {
        Err(GenerationError::UnsafeRenderTarget(p)) => assert_eq!(p, "../outside"),
        _ => panic!("expected an unsafe render target error"),
    }
}

#[test]
fn generation_error_messages() {
    assert_eq!(
        GenerationError::RootExistsError("proj".to_string()).message(),
        "Root already exists"
    );
    assert_eq!(
        GenerationError::TemplateFileError("t.yaml".to_string()).message(),
        "Error opening template file"
    );
    assert_eq!(
        GenerationError::TemplateReadError("bad yaml".to_string()).message(),
        "Unable to read template"
    );
    assert_eq!(
        GenerationError::DefsFileError("d.yaml".to_string()).message(),
        "Error opening definitions file"
    );
    assert_eq!(
        GenerationError::DefsReadError("bad yaml".to_string()).message(),
        "Unable to read defs"
    );
    assert_eq!(
        GenerationError::TemplateRenderError.message(),
        "Error rendering template"
    );
    assert_eq!(
        GenerationError::UnsafeRenderTarget("../x".to_string()).message(),
        "Unsafe render target"
    );
    assert_eq!(
        GenerationError::TemplateWriteError("src".to_string()).message(),
        "Error writing template to destination"
    );
    assert_eq!(
        GenerationError::ParentDirectoryCreateError("src".to_string()).message(),
        "Error creating parent directory"
    );
}
