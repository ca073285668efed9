use pgen::render::Definitions;
use pgen::{render, ProjectTemplate, TemplateFile};

#[test]
fn render_template() {
    let tmpl = ProjectTemplate {
        variables: Some(vec!["project_name".to_string(), "namespace".to_string()]),
        directories: Some(vec![
            "src".to_string(),
            "tests_{@ project_name @}".to_string(),
        ]),
        files: vec![
            TemplateFile {
                path: "src/main.cpp".to_string(),
                content: r"namespace {@namespace@} { auto main() -> int { return 0; }".to_string(),
            },
            TemplateFile {
                path: "tests_{@project_name@}/test.cpp".to_string(),
                content: r"{@namespace@} {@project_name@}".to_string(),
            },
        ],
    };

    let mut defs = Definitions::new();
    defs.insert("namespace".to_string(), "test_namespace".to_string());
    defs.insert("project_name".to_string(), "theproj".to_string());

    let rendered = render(&tmpl, &defs);

    assert!(!rendered.directories.is_empty());
    assert!(!rendered.files.is_empty());

    assert!(rendered.directories.contains(&"src".to_string()));
    assert!(rendered.directories.contains(&"tests_theproj".to_string()));

    let content_of = |path: &str| -> Option<String> {
        rendered
            .files
            .iter()
            .find(|f| f.path == path)
            .map(|f| f.content.clone())
    };

    assert!(content_of("src/main.cpp").is_some());
    assert!(content_of("tests_theproj/test.cpp").is_some());

    assert_eq!(
        content_of("src/main.cpp").unwrap(),
        "namespace test_namespace { auto main() -> int { return 0; }".to_string()
    );

    assert_eq!(
        content_of("tests_theproj/test.cpp").unwrap(),
        "test_namespace theproj".to_string()
    );
}

#[test]
fn render_collapses_files_with_equal_rendered_paths() {
    let tmpl = ProjectTemplate {
        variables: Some(vec!["n".to_string()]),
        directories: None,
        files: vec![
            TemplateFile {
                path: "out_{@n@}.txt".to_string(),
                content: "first".to_string(),
            },
            TemplateFile {
                path: "out_v.txt".to_string(),
                content: "second".to_string(),
            },
        ],
    };
    let mut defs = Definitions::new();
    defs.insert("n".to_string(), "v".to_string());

    let rendered = render(&tmpl, &defs);

    assert_eq!(rendered.files.len(), 1);
    assert_eq!(rendered.files[0].path, "out_v.txt");
    assert_eq!(rendered.files[0].content, "second");
}

#[test]
fn render_without_directory_list() {
    let tmpl = ProjectTemplate {
        variables: None,
        directories: None,
        files: vec![TemplateFile {
            path: "a.txt".to_string(),
            content: "{@x@}".to_string(),
        }],
    };
    let mut defs = Definitions::new();
    defs.insert("x".to_string(), "value".to_string());

    let rendered = render(&tmpl, &defs);

    assert!(rendered.directories.is_empty());
    assert_eq!(rendered.files.len(), 1);
    assert_eq!(rendered.files[0].content, "value");
}
