use substrate_manager::manifest::{lookup, read_document, write_document};
use substrate_manager::workspace::{
    path_dependencies, replace_path_dependencies_with_git, update_top_level_cargo_toml,
    workspace_members, WorkspaceError,
};

fn keys(path: &[&str]) -> Vec<String> {
    path.iter().map(|s| s.to_string()).collect()
}

fn str_at(d: &toml_edit::DocumentMut, path: &[&str]) -> Option<String> {
    lookup(d, &keys(path)).and_then(|i| i.as_str()).map(String::from)
}

const NODE: &str = "[package]\nname = \"node\"\n\n[dependencies]\na = { path = \"../gone\", default-features = false }\nb = { path = \"here\" }\nc = \"1.0\"\n\n[workspace.dependencies]\nw = { path = \"../../also-gone\" }\n";

#[test]
fn member_list_excludes_root() {
    let manifests = keys(&["root/Cargo.toml", "root/node/Cargo.toml", "root/runtime/Cargo.toml"]);
    assert_eq!(workspace_members("root", &manifests).unwrap(), vec!["node", "runtime"]);
}

#[test]
fn member_list_has_no_duplicates_and_keeps_nesting() {
    let manifests = keys(&["/p/a/b/Cargo.toml", "/p/a/b/Cargo.toml", "/p/c/Cargo.toml"]);
    assert_eq!(workspace_members("/p", &manifests).unwrap(), vec!["a/b", "c"]);
}

#[test]
fn member_outside_root_is_an_error() {
    let manifests = keys(&["elsewhere/node/Cargo.toml"]);
    assert_eq!(workspace_members("root", &manifests), Err(WorkspaceError::NotUnderRoot));
}

#[test]
fn path_dependencies_lists_every_path() {
    let d = read_document(NODE).unwrap();
    assert_eq!(path_dependencies(&d), vec!["../gone", "here", "../../also-gone"]);
}

#[test]
fn missing_paths_become_pinned_git_dependencies() {
    let mut d = read_document(NODE).unwrap();
    let missing = keys(&["../gone", "../../also-gone"]);
    replace_path_dependencies_with_git(&mut d, &missing, "https://example/tmpl.git", "abc123");
    assert_eq!(str_at(&d, &["dependencies", "a", "git"]).as_deref(), Some("https://example/tmpl.git"));
    assert_eq!(str_at(&d, &["dependencies", "a", "rev"]).as_deref(), Some("abc123"));
    assert!(lookup(&d, &keys(&["dependencies", "a", "path"])).is_none());
    assert_eq!(
        lookup(&d, &keys(&["dependencies", "a", "default-features"])).and_then(|i| i.as_bool()),
        Some(false)
    );
    assert_eq!(str_at(&d, &["dependencies", "b", "path"]).as_deref(), Some("here"));
    assert_eq!(str_at(&d, &["dependencies", "c"]).as_deref(), Some("1.0"));
    assert_eq!(str_at(&d, &["workspace", "dependencies", "w", "rev"]).as_deref(), Some("abc123"));
}

#[test]
fn rewrite_is_idempotent() {
    let mut d = read_document(NODE).unwrap();
    let missing = keys(&["../gone", "../../also-gone"]);
    replace_path_dependencies_with_git(&mut d, &missing, "https://r.git", "abc");
    let once = write_document(&d);
    replace_path_dependencies_with_git(&mut d, &missing, "https://r.git", "abc");
    assert_eq!(write_document(&d), once);
}

#[test]
fn nothing_missing_leaves_text_untouched() {
    let mut d = read_document(NODE).unwrap();
    replace_path_dependencies_with_git(&mut d, &Vec::new(), "https://r.git", "abc");
    assert_eq!(write_document(&d), NODE);
}

#[test]
fn root_manifest_gets_profile_and_members() {
    let mut d = read_document("[workspace]\nresolver = \"2\"\n").unwrap();
    update_top_level_cargo_toml(&mut d, &keys(&["node", "runtime"])).unwrap();
    assert_eq!(str_at(&d, &["profile", "release", "panic"]).as_deref(), Some("abort"));
    assert_eq!(str_at(&d, &["workspace", "resolver"]).as_deref(), Some("2"));
    let members = lookup(&d, &keys(&["workspace", "members"])).unwrap();
    let values: Vec<&str> = members.as_array().unwrap().iter().map(|v| v.as_str().unwrap()).collect();
    assert_eq!(values, vec!["node", "runtime"]);
}

#[test]
fn empty_root_manifest_gets_a_workspace() {
    let mut d = read_document("").unwrap();
    update_top_level_cargo_toml(&mut d, &keys(&["node"])).unwrap();
    assert!(lookup(&d, &keys(&["workspace", "members"])).is_some());
}

#[test]
fn non_table_workspace_is_refused() {
    let mut d = read_document("workspace = 3\n").unwrap();
    assert!(update_top_level_cargo_toml(&mut d, &keys(&["node"])).is_err());
    assert_eq!(write_document(&d), "workspace = 3\n");
}

#[test]
fn root_manifest_keeps_other_profile_settings() {
    let mut d = read_document("[profile.release]\nlto = true\n\n[profile.dev]\nopt-level = 1\n").unwrap();
    update_top_level_cargo_toml(&mut d, &keys(&["node"])).unwrap();
    assert_eq!(str_at(&d, &["profile", "release", "panic"]).as_deref(), Some("abort"));
    assert_eq!(lookup(&d, &keys(&["profile", "release", "lto"])).and_then(|i| i.as_bool()), Some(true));
    assert_eq!(lookup(&d, &keys(&["profile", "dev", "opt-level"])).and_then(|i| i.as_integer()), Some(1));
}

#[test]
fn non_table_profile_is_refused() {
    let mut d = read_document("profile = 1\n").unwrap();
    assert!(update_top_level_cargo_toml(&mut d, &keys(&["node"])).is_err());
    assert_eq!(write_document(&d), "profile = 1\n");
}

#[test]
fn rewrite_keeps_dependency_order() {
    let mut d = read_document(NODE).unwrap();
    replace_path_dependencies_with_git(&mut d, &keys(&["../gone"]), "https://r.git", "abc");
    let names: Vec<&str> = d["dependencies"].as_table().unwrap().iter().map(|(k, _)| k).collect();
    assert_eq!(names, vec!["a", "b", "c"]);
}
