use pgen::scan::{get_template_vars, get_vars_from_string};
use pgen::template::TemplateFile;
use std::collections::HashSet;

fn as_set(v: Vec<String>) -> HashSet<String> {
    v.into_iter().collect()
}

#[test]
fn test_get_vars_from_string() {
    let vars = as_set(get_vars_from_string("{@ namespace@}{@project_name @}"));

    assert!(vars == HashSet::from(["namespace".to_string(), "project_name".to_string()]));
}

#[test]
fn test_get_template_vars() {
    let dirs = vec![
        "{@ namespace @}/{@project_name@}".to_string(),
        "include".to_string(),
        "src".to_string(),
    ];
    let files = vec![TemplateFile {
        path: "test/{@project_name@}.cpp".to_string(),
        content: "{@namespace@}{project_name@}".to_string(),
    }];

    let actual = as_set(get_template_vars(&dirs, &files));

    assert!(actual == HashSet::from(["namespace".to_string(), "project_name".to_string()]));
}

#[test]
fn scan_directory_path_and_file() {
    let dirs = vec!["{@ namespace @}/{@project_name@}".to_string()];
    let files = vec![TemplateFile {
        path: "test/{@project_name@}.cpp".to_string(),
        content: "{@namespace@}{@project_name@}".to_string(),
    }];

    let actual = as_set(get_template_vars(&dirs, &files));

    assert!(actual == HashSet::from(["namespace".to_string(), "project_name".to_string()]));
}

#[test]
fn scan_empty_input_yields_empty_set() {
    assert!(get_vars_from_string("").is_empty());
}

#[test]
fn scan_ignores_malformed_markers() {
    // Unmatched openers, missing closers, and empty names are not matched.
    assert!(get_vars_from_string("{@ unclosed").is_empty());
    assert!(get_vars_from_string("{@@}").is_empty());
    assert!(get_vars_from_string("{name}").is_empty());
    assert!(get_vars_from_string("name @}").is_empty());
    assert!(get_vars_from_string("{@ two words @}").is_empty());
}

#[test]
fn scan_accepts_interior_whitespace() {
    let vars = as_set(get_vars_from_string("{@name@} {@ name @} {@\tname\n@}"));
    assert!(vars == HashSet::from(["name".to_string()]));
}

#[test]
fn scan_collapses_duplicates() {
    let vars = get_vars_from_string("{@a@}{@b@}{@a@}{@b@}{@a@}");
    assert_eq!(vars.len(), 2);
}
