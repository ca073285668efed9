use pgen::render::{render_string, render_template, Definitions};
use pgen::template::{ProjectTemplate, TemplateFile};

fn defs_of(pairs: &[(&str, &str)]) -> Definitions {
    let mut defs = Definitions::new();
    for (k, v) in pairs {
        defs.insert(k.to_string(), v.to_string());
    }
    defs
}

#[test]
fn render_test() {
    let pt = ProjectTemplate {
        variables: vec!["namespace".to_string(), "project_name".to_string()],
        directories: vec!["docs".to_string(), "include".to_string(), "src".to_string()],
        files: vec![TemplateFile {
            path: r"include\{@ namespace @}\{@project_name@}.hpp".to_string(),
            content: "{@ namespace@}{@project_name @}".to_string(),
        }],
    };

    let defs = defs_of(&[("namespace", "passion"), ("project_name", "fruit")]);

    let rendered = render_template(pt, &defs);

    assert!(rendered.directories.contains(&"docs".to_string()));
    assert!(rendered.directories.contains(&"include".to_string()));
    assert!(rendered.directories.contains(&"src".to_string()));
    assert!(rendered.get_file(r"include\passion\fruit.hpp").is_some());
    assert!(
        rendered.get_file(r"include\passion\fruit.hpp").unwrap() == &"passionfruit".to_string()
    );
}

#[test]
fn render_directory_and_content() {
    let defs = defs_of(&[("namespace", "test_namespace"), ("project_name", "theproj")]);

    let dir = render_string("tests_{@ project_name @}", &defs);
    let content = render_string("{@namespace@} {@project_name@}", &defs);

    assert_eq!(dir, "tests_theproj");
    assert_eq!(content, "test_namespace theproj");
}

#[test]
fn render_preserves_stray_braces() {
    let defs = defs_of(&[("namespace", "test_namespace")]);

    let src = "int main() { return 0; }";
    assert_eq!(render_string(src, &defs), src);
}

#[test]
fn render_leaves_unresolved_placeholders() {
    let defs = defs_of(&[("namespace", "ns")]);

    let out = render_string("{@namespace@}/{@project_name@}", &defs);
    assert_eq!(out, "ns/{@project_name@}");

    let alone = render_string("{@ project_name @}", &defs);
    assert_eq!(alone, "{@ project_name @}");
}

#[test]
fn render_strips_stray_at_signs() {
    let defs = Definitions::new();
    assert_eq!(render_string("user@host", &defs), "userhost");
}

#[test]
fn render_is_idempotent_on_resolved_output() {
    let defs = defs_of(&[("a", "left"), ("b", "right")]);

    let once = render_string("{@a@} { mid } {@b@}", &defs);
    assert_eq!(once, "left { mid } right");
    let twice = render_string(&once, &defs);
    assert_eq!(twice, once);
}

#[test]
fn render_does_not_reinterpret_values() {
    // A substituted value is inserted literally; it is not scanned again.
    let defs = defs_of(&[("a", "{@b@}"), ("b", "nested")]);
    assert_eq!(render_string("{@a@}", &defs), "{@b@}");
}

#[test]
fn render_empty_template_string() {
    let defs = defs_of(&[("a", "x")]);
    assert_eq!(render_string("", &defs), "");
}

#[test]
fn render_collapses_duplicate_rendered_paths() {
    // Two files whose paths render to the same path form one mapping
    // entry; the later file wins.
    let pt = ProjectTemplate {
        variables: vec!["n".to_string()],
        directories: Vec::new(),
        files: vec![
            TemplateFile {
                path: "a_{@n@}.txt".to_string(),
                content: "first".to_string(),
            },
            TemplateFile {
                path: "a_x.txt".to_string(),
                content: "second".to_string(),
            },
        ],
    };
    let defs = defs_of(&[("n", "x")]);
    let rendered = render_template(pt, &defs);

    assert_eq!(rendered.files.len(), 1);
    assert_eq!(rendered.files[0].path, "a_x.txt");
    assert_eq!(rendered.get_file("a_x.txt").unwrap(), &"second".to_string());
}

#[test]
fn render_keeps_distinct_paths_apart() {
    let pt = ProjectTemplate {
        variables: Vec::new(),
        directories: Vec::new(),
        files: vec![
            TemplateFile {
                path: "a.txt".to_string(),
                content: "one".to_string(),
            },
            TemplateFile {
                path: "b.txt".to_string(),
                content: "two".to_string(),
            },
        ],
    };
    let rendered = render_template(pt, &Definitions::new());

    assert_eq!(rendered.files.len(), 2);
    assert_eq!(rendered.get_file("a.txt").unwrap(), &"one".to_string());
    assert_eq!(rendered.get_file("b.txt").unwrap(), &"two".to_string());
}

#[test]
fn definitions_insert_and_get() {
    let mut defs = Definitions::new();
    assert!(defs.get("name").is_none());
    defs.insert("name".to_string(), "first".to_string());
    assert_eq!(defs.get("name").unwrap(), &"first".to_string());
    defs.insert("name".to_string(), "second".to_string());
    assert_eq!(defs.get("name").unwrap(), &"second".to_string());
    assert!(defs.get("other").is_none());
}

#[test]
fn rendered_template_lookup() {
    let pt = ProjectTemplate {
        variables: vec!["n".to_string()],
        directories: vec!["d_{@n@}".to_string()],
        files: vec![TemplateFile {
            path: "f_{@n@}.txt".to_string(),
            content: "c_{@n@}".to_string(),
        }],
    };
    let defs = defs_of(&[("n", "x")]);
    let rendered = render_template(pt, &defs);

    assert!(rendered.has_directory("d_x"));
    assert!(!rendered.has_directory("d_y"));
    assert_eq!(rendered.get_file("f_x.txt").unwrap(), &"c_x".to_string());
    assert!(rendered.get_file("f_y.txt").is_none());
}
