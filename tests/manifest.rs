use substrate_manager::add::add_pallet_std_to_manifest;
use substrate_manager::config::{
    deduce_project_kind, find_field_recursive, from_manifest_or_default, get_package_name,
    project_kind, set_descriptor_path, ChainInfo, Config, ConfigError, ContractInfo, ProjectKind,
    ProjectType,
};
use substrate_manager::manifest::{lookup, read_document, write_document, Manifest, ManifestError};
use substrate_manager::rename::set_package_name;

fn std_array(d: &toml_edit::DocumentMut) -> Vec<Option<String>> {
    let path = vec!["features".to_string(), "std".to_string()];
    let array = lookup(d, &path).unwrap().as_array().unwrap();
    array.iter().map(|v| v.as_str().map(String::from)).collect()
}

#[test]
fn std_feature_is_added_once() {
    let mut d = read_document("[package]\nname = \"runtime\"\n\n[features]\nstd = [\"a/std\", \"b/std\"]\n").unwrap();
    add_pallet_std_to_manifest(&mut d, "pallet-foo").unwrap();
    let expected = vec![
        Some("a/std".to_string()),
        Some("b/std".to_string()),
        Some("pallet-foo/std".to_string()),
    ];
    assert_eq!(std_array(&d), expected);
    let once = write_document(&d);
    add_pallet_std_to_manifest(&mut d, "pallet-foo").unwrap();
    assert_eq!(std_array(&d), expected);
    assert_eq!(write_document(&d), once);
}

#[test]
fn std_feature_needs_an_array() {
    let mut d = read_document("[features]\nstd = \"x\"\n").unwrap();
    assert_eq!(add_pallet_std_to_manifest(&mut d, "p"), Err(ManifestError::UnexpectedShape));
    let mut d = read_document("[package]\nname = \"r\"\n").unwrap();
    assert_eq!(add_pallet_std_to_manifest(&mut d, "p"), Err(ManifestError::UnexpectedShape));
}

#[test]
fn one_field_change_keeps_the_rest_of_the_text() {
    let text = "# project\n[package]\nname = \"old\"\nversion = \"0.1.0\"\n\n[dependencies]\nx = \"1\" # pinned\n";
    let mut d = read_document(text).unwrap();
    set_package_name(&mut d, "new").unwrap();
    assert_eq!(
        write_document(&d),
        "# project\n[package]\nname = \"new\"\nversion = \"0.1.0\"\n\n[dependencies]\nx = \"1\" # pinned\n"
    );
}

#[test]
fn text_that_is_not_toml_is_refused() {
    assert!(matches!(read_document("[package\nname = "), Err(ManifestError::Parse)));
}

#[test]
fn unchanged_document_renders_as_read() {
    let text = "# c\n[a]\nb = 1 # x\n\n[d]\ne = [\"f\",  \"g\"]\n";
    let d = read_document(text).unwrap();
    assert_eq!(write_document(&d), text);
}

#[test]
fn package_name_is_read() {
    let d = read_document("[package]\nname = \"node-template\"\n").unwrap();
    assert_eq!(get_package_name(&d).unwrap(), "node-template");
    let d = read_document("[package]\nversion = \"1\"\n").unwrap();
    assert_eq!(get_package_name(&d), Err(ManifestError::MissingKey));
    let d = read_document("[package]\nname = 3\n").unwrap();
    assert_eq!(get_package_name(&d), Err(ManifestError::UnexpectedShape));
    let d = read_document("").unwrap();
    assert_eq!(get_package_name(&d), Err(ManifestError::MissingKey));
}

#[test]
fn settings_fall_back_to_defaults() {
    let d = read_document("type = \"chain\"\n[paths]\nnode = \"my-node\"\n").unwrap();
    assert_eq!(from_manifest_or_default(Some(&d), "paths.node", "node"), "my-node");
    assert_eq!(from_manifest_or_default(Some(&d), "paths.runtime", "runtime"), "runtime");
    assert_eq!(from_manifest_or_default(None, "paths.node", "node"), "node");
    assert!(find_field_recursive(d.as_item(), "paths").is_none());
    assert!(find_field_recursive(d.as_item(), "type").is_some());
}

#[test]
fn project_kind_is_read_from_type() {
    let d = read_document("type = \"chain\"\n").unwrap();
    assert_eq!(project_kind(&d), Ok(ProjectKind::Chain));
    let d = read_document("type = \"contract\"\n").unwrap();
    assert_eq!(project_kind(&d), Ok(ProjectKind::Contract));
    let d = read_document("type = \"other\"\n").unwrap();
    assert_eq!(project_kind(&d), Err(ConfigError::IncorrectProjectType));
    let d = read_document("").unwrap();
    assert_eq!(project_kind(&d), Err(ConfigError::IncorrectProjectType));
}

#[test]
fn project_kind_is_deduced_from_layout() {
    assert_eq!(deduce_project_kind(true, true), Some(ProjectKind::Chain));
    assert_eq!(deduce_project_kind(false, true), Some(ProjectKind::Contract));
    assert_eq!(deduce_project_kind(false, false), None);
}

#[test]
fn config_keeps_what_it_is_given() {
    let chain = ProjectType::Chain(ChainInfo {
        node_path: "node".to_string(),
        node_name: Some("n".to_string()),
        runtime_path: "runtime".to_string(),
        runtime_name: None,
        frontend_path: "frontend".to_string(),
    });
    assert_eq!(chain.describe(), "Chain: node - n, runtime - unknown");
    let config = Config::new("/work".to_string(), Some(chain));
    assert_eq!(config.cwd(), "/work");
    assert!(config.project_type().is_some());
    let contract = ProjectType::Contract(ContractInfo { name: "flipper".to_string() });
    assert_eq!(contract.describe(), "Contract: flipper");
    assert_eq!(Manifest::new("Cargo.toml".to_string()).path, "Cargo.toml");
}

#[test]
fn descriptor_records_package_paths() {
    let mut d = read_document("type = \"chain\"\n").unwrap();
    set_descriptor_path(&mut d, "node", "my-node").unwrap();
    assert_eq!(from_manifest_or_default(Some(&d), "paths.node", "node"), "my-node");
    set_descriptor_path(&mut d, "runtime", "rt").unwrap();
    assert_eq!(from_manifest_or_default(Some(&d), "paths.node", "node"), "my-node");
    assert_eq!(from_manifest_or_default(Some(&d), "paths.runtime", "runtime"), "rt");
    let mut bad = read_document("paths = 1\n").unwrap();
    assert_eq!(set_descriptor_path(&mut bad, "node", "x"), Err(ManifestError::UnexpectedShape));
}
