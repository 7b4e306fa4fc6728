use substrate_manager::extract::{
    extract_field_names, extract_match_fields, ExtractError, Expr, FnDef, Pattern, SourceItem,
    Stmt,
};

fn path(segs: &[&str]) -> Pattern {
    Pattern::Path(segs.iter().map(|s| s.to_string()).collect())
}

fn load_spec_fn(arms: Vec<Pattern>) -> FnDef {
    FnDef {
        name: "load_spec".to_string(),
        body: vec![Stmt::Call(vec![Expr::Match(arms)])],
    }
}

#[test]
fn dispatch_arms_extract_in_order() {
    let arms = vec![
        Pattern::Str("dev".to_string()),
        Pattern::Or(vec![
            Pattern::Str("local".to_string()),
            Pattern::Str("local-testnet".to_string()),
        ]),
        path(&["other", "PRESET"]),
    ];
    let items = vec![SourceItem::Fn(load_spec_fn(arms))];
    assert_eq!(
        extract_match_fields(&items).unwrap(),
        vec!["dev", "local", "local-testnet", "preset"]
    );
}

#[test]
fn trait_impl_load_spec_is_searched() {
    let arms = vec![Pattern::Str("dev".to_string()), Pattern::Binding];
    let items = vec![
        SourceItem::Other,
        SourceItem::TraitImpl {
            trait_name: "SubstrateCli".to_string(),
            methods: vec![
                FnDef { name: "impl_name".to_string(), body: vec![] },
                load_spec_fn(arms),
            ],
        },
        SourceItem::TraitImpl {
            trait_name: "OtherTrait".to_string(),
            methods: vec![load_spec_fn(vec![Pattern::Str("ignored".to_string())])],
        },
        SourceItem::Fn(load_spec_fn(vec![Pattern::Str("free".to_string())])),
    ];
    assert_eq!(extract_match_fields(&items).unwrap(), vec!["dev", "free"]);
}

#[test]
fn or_pattern_is_union_of_cases() {
    let a = Pattern::Str("a".to_string());
    let b = path(&["B"]);
    let c = Pattern::Or(vec![Pattern::Str("c".to_string()), Pattern::Str("a".to_string())]);
    let mut parts = Vec::new();
    for p in [&a, &b, &c] {
        parts.extend(extract_field_names(p).unwrap());
    }
    let or = Pattern::Or(vec![a, b, c]);
    assert_eq!(extract_field_names(&or).unwrap(), parts);
    assert_eq!(parts, vec!["a", "b", "c", "a"]);
}

#[test]
fn empty_literals_and_bindings_give_nothing() {
    assert_eq!(extract_field_names(&Pattern::Str(String::new())).unwrap(), Vec::<String>::new());
    assert_eq!(extract_field_names(&Pattern::Binding).unwrap(), Vec::<String>::new());
    assert_eq!(extract_field_names(&Pattern::OtherLit).unwrap(), Vec::<String>::new());
}

#[test]
fn unsupported_pattern_is_an_error() {
    let or = Pattern::Or(vec![Pattern::Str("dev".to_string()), Pattern::Unsupported]);
    assert!(matches!(extract_field_names(&or), Err(ExtractError::UnsupportedPattern)));
    let items = vec![SourceItem::Fn(load_spec_fn(vec![Pattern::Unsupported]))];
    assert!(matches!(extract_match_fields(&items), Err(ExtractError::UnsupportedPattern)));
}
