use omni::{path_ancestors, replace_all, ConfigFileNames};

fn names() -> ConfigFileNames {
    ConfigFileNames {
        workspace_template: "workspace.omni.{ext}".to_string(),
        project_template: "project.omni.{ext}".to_string(),
        extensions: vec!["yaml".to_string(), "yml".to_string()],
    }
}

#[test]
fn replace_all_replaces_every_occurrence() {
    assert_eq!(replace_all("a{ext}b{ext}", "{ext}", "yaml"), "ayamlbyaml");
}

#[test]
fn replace_all_without_occurrence_keeps_string() {
    assert_eq!(replace_all(".env.local", "{ENV}", "testing"), ".env.local");
}

#[test]
fn replace_all_takes_occurrences_left_to_right() {
    assert_eq!(replace_all("aaa", "aa", "X"), "Xa");
    assert_eq!(replace_all("aaaa", "aa", "X"), "XX");
}

#[test]
fn replace_all_handles_non_ascii() {
    assert_eq!(replace_all("é{ENV}ü", "{ENV}", "ß"), "éßü");
}

#[test]
fn config_file_names_follow_extensions_in_order() {
    let n = names();
    assert_eq!(n.workspace_files(), vec!["workspace.omni.yaml", "workspace.omni.yml"]);
    assert_eq!(n.project_files(), vec!["project.omni.yaml", "project.omni.yml"]);
    assert_eq!(n.default_root_marker(), "workspace.omni.yaml");
}

#[test]
fn no_extensions_give_no_names() {
    let mut n = names();
    n.extensions.clear();
    assert!(n.workspace_files().is_empty());
}

#[test]
fn ancestors_start_with_path_and_end_at_root() {
    assert_eq!(
        path_ancestors("/root/nested/project-1"),
        vec!["/root/nested/project-1", "/root/nested", "/root", "/"]
    );
    assert_eq!(path_ancestors("a/b"), vec!["a/b", "a", ""]);
}
