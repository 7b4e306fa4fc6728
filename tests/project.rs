use substrate_manager::errors::{display_error, ChainLink, CliError, LinkKind, Shown};
use substrate_manager::manifest::{lookup, read_document, write_document};
use substrate_manager::new::{
    get_name, get_parent, keep_top_level_file, load_template_config, project_descriptor,
    template_config_file, validate_name, validate_path, NameError, NameWarning, NewError,
    NewOptions, Template,
};
use substrate_manager::rename::{
    node_package_name, propagate_chain_name, rename_in_features, replace_occurrence,
    runtime_package_name, source_rename_pair,
};

fn texts(v: &[Shown]) -> Vec<(u8, String)> {
    v.iter()
        .map(|s| match s {
            Shown::Error(t) => (0, t.clone()),
            Shown::Text(t) => (1, t.clone()),
            Shown::Note(t) => (2, t.clone()),
        })
        .collect()
}

fn link(kind: LinkKind, m: &str) -> ChainLink {
    ChainLink { kind, message: m.to_string() }
}

#[test]
fn error_chain_is_shown_with_causes() {
    let chain = vec![link(LinkKind::Plain, "top"), link(LinkKind::Plain, "cause\nmore")];
    assert_eq!(
        texts(&display_error(&chain, false)),
        vec![
            (0, "top".to_string()),
            (1, "\nCaused by:\n".to_string()),
            (1, "  cause\n  more\n".to_string()),
        ]
    );
}

#[test]
fn verbose_and_printed_links_stop_the_chain() {
    let chain = vec![link(LinkKind::Plain, "top"), link(LinkKind::Verbose, "hidden")];
    assert_eq!(display_error(&chain, false).len(), 1);
    assert_eq!(display_error(&chain, true).len(), 3);
    let chain = vec![link(LinkKind::Plain, "top"), link(LinkKind::AlreadyPrinted, "x")];
    assert_eq!(display_error(&chain, true).len(), 1);
}

#[test]
fn internal_errors_ask_for_a_report() {
    let chain = vec![link(LinkKind::Internal, "boom")];
    let shown = texts(&display_error(&chain, false));
    assert_eq!(shown.len(), 3);
    assert_eq!(shown[1].0, 2);
}

#[test]
fn cli_error_codes() {
    let e = CliError::new(anyhow::Error::msg("x"), 3);
    assert_eq!(e.exit_code, 3);
    assert!(e.error.is_some());
    assert!(CliError::code(0).error.is_none());
    assert_eq!(CliError::from(anyhow::Error::msg("y")).exit_code, 101);
}

#[test]
fn names_come_from_options_or_path() {
    let opts = NewOptions { template: Template::Substrate, path: "/tmp/demo".to_string(), name: None };
    assert_eq!(get_name(&opts).unwrap(), "demo");
    assert_eq!(get_parent(&opts).unwrap(), "/tmp");
    let named = NewOptions {
        template: Template::Custom("x".to_string()),
        path: "/tmp/demo".to_string(),
        name: Some("chain".to_string()),
    };
    assert_eq!(get_name(&named).unwrap(), "chain");
    let root = NewOptions { template: Template::Canvas, path: "/".to_string(), name: None };
    assert_eq!(get_name(&root), Err(NewError::NoFileName));
    assert_eq!(get_parent(&root), Err(NewError::NoParent));
}

#[test]
fn path_with_separator_is_refused() {
    assert_eq!(validate_path("/tmp/a:b"), Err(NewError::InvalidPathCharacters));
    assert_eq!(validate_path("/tmp/ab"), Ok(()));
}

#[test]
fn templates_are_looked_up_by_name() {
    assert_eq!(template_config_file("Substrate").unwrap(), "chain/substrate.toml");
    assert_eq!(template_config_file("canvas").unwrap(), "chain/canvas.toml");
    assert_eq!(template_config_file("nope"), Err(NewError::UnknownTemplate));
    let d = read_document("remote = \"https://example/tmpl.git\"\nbranch = \"v1\"\ntemplate_path = \"node-template\"\n").unwrap();
    let c = load_template_config(&d).unwrap();
    assert_eq!(c.remote, "https://example/tmpl.git");
    assert_eq!(c.branch, "v1");
    assert_eq!(c.template_path, "node-template");
    let d = read_document("remote = \"r\"\n").unwrap();
    assert!(matches!(load_template_config(&d), Err(NewError::IncompleteTemplate)));
}

#[test]
fn only_manifests_and_format_config_stay() {
    assert!(keep_top_level_file("Cargo.toml"));
    assert!(keep_top_level_file("Cargo.lock"));
    assert!(keep_top_level_file("rustfmt.toml"));
    assert!(!keep_top_level_file("README.md"));
}

#[test]
fn descriptor_declares_the_kind() {
    assert_eq!(write_document(&project_descriptor("chain")), "type = \"chain\"\n");
}

#[test]
fn replacement_is_left_to_right_without_overlap() {
    assert_eq!(replace_occurrence("aaa", "aa", "b"), "ba");
    assert_eq!(replace_occurrence("node_template_runtime::x", "node_template_runtime", "demo_runtime"), "demo_runtime::x");
    assert_eq!(replace_occurrence("abc", "", "x"), "abc");
}

#[test]
fn chain_names_follow_the_scheme() {
    assert_eq!(node_package_name("demo"), "demo-node");
    assert_eq!(runtime_package_name("demo"), "demo-runtime");
    let (from, to) = source_rename_pair("node-template-runtime", "demo");
    assert_eq!(from, "node_template_runtime");
    assert_eq!(to, "demo_runtime");
}

fn keys(path: &[&str]) -> Vec<String> {
    path.iter().map(|s| s.to_string()).collect()
}

#[test]
fn chain_rename_reaches_every_reference() {
    let mut node = read_document("[package]\nname = \"node-template\"\n\n[[bin]]\nname = \"node-template\"\n\n[dependencies]\nnode-template-runtime = { path = \"../runtime\" }\n\n[features]\nstd = [\"node-template-runtime/std\", \"other/std\"]\n").unwrap();
    let mut runtime = read_document("[package]\nname = \"node-template-runtime\"\n").unwrap();
    let mut root = read_document("[workspace.dependencies]\nnode-template-runtime = { git = \"g\", rev = \"r\", default-features = false }\n").unwrap();
    let changed = propagate_chain_name(&mut node, &mut runtime, &mut root, "demo", "node-template-runtime").unwrap();
    assert!(changed);
    let s = |d: &toml_edit::DocumentMut, p: &[&str]| lookup(d, &keys(p)).and_then(|i| i.as_str()).map(String::from);
    assert_eq!(s(&node, &["package", "name"]).as_deref(), Some("demo-node"));
    assert_eq!(s(&runtime, &["package", "name"]).as_deref(), Some("demo-runtime"));
    assert_eq!(s(&node, &["dependencies", "demo-runtime", "path"]).as_deref(), Some("../runtime"));
    assert!(lookup(&node, &keys(&["dependencies", "node-template-runtime"])).is_none());
    assert_eq!(s(&root, &["workspace", "dependencies", "demo-runtime", "path"]).as_deref(), Some("runtime"));
    assert!(lookup(&root, &keys(&["workspace", "dependencies", "demo-runtime", "git"])).is_none());
    let bin = node.get("bin").unwrap().get(0).unwrap().get("name").unwrap().as_str();
    assert_eq!(bin, Some("demo-node"));
    let std: Vec<&str> = node["features"]["std"].as_array().unwrap().iter().map(|v| v.as_str().unwrap()).collect();
    assert_eq!(std, vec!["demo-runtime/std", "other/std"]);
}

#[test]
fn features_need_a_table() {
    let mut d = read_document("[package]\nname = \"n\"\n").unwrap();
    assert!(rename_in_features(&mut d, "a", "b").is_err());
}

#[test]
fn package_names_are_validated() {
    assert_eq!(validate_name("demo-chain"), Ok(vec![]));
    assert_eq!(validate_name(""), Err(NameError::Empty));
    assert_eq!(validate_name("1chain"), Err(NameError::StartsWithDigit));
    assert_eq!(validate_name("my chain"), Err(NameError::InvalidCharacter));
    assert_eq!(validate_name("-chain"), Err(NameError::InvalidCharacter));
    assert_eq!(validate_name("fn"), Err(NameError::Keyword));
    assert_eq!(validate_name("build"), Err(NameError::ConflictsWithBuildDirectory));
    assert_eq!(validate_name("test"), Err(NameError::ConflictsWithTestLibrary));
    assert_eq!(validate_name("std"), Ok(vec![NameWarning::StandardLibraryName]));
    assert_eq!(validate_name("CON"), Ok(vec![NameWarning::WindowsReservedName]));
    assert_eq!(validate_name("naïve"), Ok(vec![NameWarning::NonAsciiName]));
}
