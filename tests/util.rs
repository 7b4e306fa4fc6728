use substrate_manager::util::{indented_lines, parse_features, to_pascal_case, to_snake_case};

#[test]
fn test_to_pascal_case() {
    assert_eq!(to_pascal_case("HelloWorld"), "HelloWorld");
    assert_eq!(to_pascal_case("Hello_World"), "HelloWorld");
    assert_eq!(to_pascal_case("Hello-World"), "HelloWorld");
    assert_eq!(to_pascal_case("helloWorld"), "HelloWorld");
}

#[test]
fn test_to_snake_case() {
    assert_eq!(to_snake_case("HelloWorld"), "hello_world");
    assert_eq!(to_snake_case("Hello_World"), "hello_world");
    assert_eq!(to_snake_case("Hello-World"), "hello_world");
    assert_eq!(to_snake_case("hello-world"), "hello_world");
    assert_eq!(to_snake_case("helloWorld"), "hello_world");
    assert_eq!(to_snake_case("ABc   wOW"), "a_bc_w_o_w");
}

#[test]
fn snake_case_of_pallet_names() {
    assert_eq!(to_snake_case("pallet-foo"), "pallet_foo");
    assert_eq!(to_snake_case(""), "");
    assert_eq!(to_snake_case("-lead"), "lead");
}

#[test]
fn pascal_case_of_empty_and_single() {
    assert_eq!(to_pascal_case(""), "");
    assert_eq!(to_pascal_case("a"), "A");
    assert_eq!(to_pascal_case("pallet_foo"), "PalletFoo");
}

#[test]
fn indented_lines_indents_non_empty_lines() {
    assert_eq!(indented_lines("a\n\nb"), "  a\n\n  b\n");
    assert_eq!(indented_lines(""), "");
    assert_eq!(indented_lines("x\r\ny\n"), "  x\n  y\n");
}

#[test]
fn parse_features_keeps_order_and_repeats() {
    assert_eq!(parse_features("a, b  c,,a"), vec!["a", "b", "c", "a"]);
    assert_eq!(parse_features("  "), Vec::<String>::new());
    assert_eq!(parse_features("std,runtime-benchmarks"), vec!["std", "runtime-benchmarks"]);
}
