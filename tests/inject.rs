use substrate_manager::inject::{add_pallet_to_runtime, InjectError};

const RUNTIME: &str = "use x;\n\nimpl frame_system::Config for Runtime {\n\ttype A = B;\n}\n\nconstruct_runtime!(\n\tpub enum Runtime {\n\t\tSystem: frame_system,\n\t}\n);\n";

const WITH_FOO: &str = "use x;\n\nimpl frame_system::Config for Runtime {\n\ttype A = B;\n}\n\nimpl pallet_foo::Config for Runtime { \n\t/* pallet_foo Trait config goes here */ \n}\n\nconstruct_runtime!(\n\tpub enum Runtime {\n\t\tSystem: frame_system,\n        PalletFoo: pallet_foo,\n\t}\n);\n";

#[test]
fn new_pallet_gets_block_and_entry() {
    let (text, line) = add_pallet_to_runtime(RUNTIME, "pallet-foo").unwrap();
    assert_eq!(text, WITH_FOO);
    assert_eq!(line, None);
}

#[test]
fn injecting_twice_changes_nothing_more() {
    let (once, _) = add_pallet_to_runtime(RUNTIME, "pallet-foo").unwrap();
    let (twice, line) = add_pallet_to_runtime(&once, "pallet-foo").unwrap();
    assert_eq!(twice, once);
    assert_eq!(line, Some(7));
    assert_eq!(twice.matches("PalletFoo: pallet_foo,").count(), 1);
    assert_eq!(twice.matches("impl pallet_foo::Config for Runtime").count(), 1);
}

#[test]
fn existing_block_is_replaced_and_its_line_reported() {
    let src = "impl pallet_bar::Config for Runtime {\n\ttype X = Y;\n\ttype Z = { 1 };\n}\nconstruct_runtime!(\n\tpub enum Runtime {\n\t\tPalletBar: pallet_bar::{Pallet},\n\t}\n);\n";
    let (text, line) = add_pallet_to_runtime(src, "pallet-bar").unwrap();
    assert_eq!(line, Some(1));
    assert_eq!(
        text,
        "impl pallet_bar::Config for Runtime { \n\t/* pallet_bar Trait config goes here */ \n}\nconstruct_runtime!(\n\tpub enum Runtime {\n        PalletBar: pallet_bar,\n\t}\n);\n"
    );
}

#[test]
fn missing_aggregation_is_an_error() {
    assert_eq!(
        add_pallet_to_runtime("fn main() {}\n", "pallet-foo"),
        Err(InjectError::AggregationNotFound)
    );
}
