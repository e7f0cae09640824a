use analyzer::parse::parse_rust_code;
use analyzer::visitors::cyclomatic_complexity::calculate_cyclomatic_complexity;

fn complexity(source_code: &str) -> i32 {
    let tree = parse_rust_code(source_code).unwrap();
    calculate_cyclomatic_complexity(&tree).unwrap()
}

#[test]
fn cyclomatic_complexity_test_if() {
    assert_eq!(complexity("if x { 42 } else { 43 }"), 1);
    assert_eq!(complexity("if x { 42 } else if y { 43 } else { 44 } "), 2);
}

#[test]
fn cyclomatic_complexity_test_logic_operators() {
    // The parser needs the function body to be present, so each assertion starts with +1 complexity for the function
    assert_eq!(complexity("fn foo() { a && b }"), 2);
    assert_eq!(complexity("fn foo() { a && b && c }"), 3);
    assert_eq!(complexity("fn foo() { a && b || c }"), 3);
}

#[test]
fn cyclomatic_complexity_test_match() {
    assert_eq!(
        complexity("match x { 1 => 42, 2 => 43, 3 => 44, _ => 45 }"),
        4
    );
    assert_eq!(
        complexity(r#"match x { 1 => println!("one"), 2 => println!("two"), 3 => {}, _ => {} }"#),
        2
    );
}

#[test]
fn cyclomatic_complexity_test_nested() {
    assert_eq!(
        complexity(
            r#"
    fn foo() { // +1
        while x { // +1
        }
        for i in 0..10 { // +1
            if i % 2 == 0 { // +1
                continue;
            } else {
                break;
            }
        }
    }"#
        ),
        4
    );
}

#[test]
fn cyclomatic_complexity_test_nested_functions_and_closures() {
    assert_eq!(
        complexity(
            r#"
    fn foo() { // +1
        fn nested(x: i32) { // +1
            if x == 2 { // +1
                4
            } else {
                5
            }
        }

        let closure = |x: i32| { // +1
            if x == 2 { // +1
                4
            } else {
                5
            }
        };
    }
        "#
        ),
        5
    );
}
