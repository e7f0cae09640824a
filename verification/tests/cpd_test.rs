use analyzer::location::SonarLocation;
use analyzer::parse::parse_rust_code;
use analyzer::visitors::cpd::{calculate_cpd_tokens, is_cfg_test_attribute, CpdToken};

fn token(
    image: &str,
    start_line: usize,
    start_column: usize,
    end_line: usize,
    end_column: usize,
) -> CpdToken {
    CpdToken {
        location: SonarLocation {
            start_line,
            start_column,
            end_line,
            end_column,
        },
        image: image.to_string(),
    }
}

#[test]
fn test_cpd_tokens() {
    let source_code = r#"
fn main() {
    let s = "foo";
    '"';
    42;
    3.14;
    r"
bar
";
}
"#;
    let tree = parse_rust_code(source_code).unwrap();

    let actual = calculate_cpd_tokens(&tree, source_code).unwrap();
    let expected = vec![
        token("fn", 2, 0, 2, 2),
        token("main", 2, 3, 2, 7),
        token("(", 2, 7, 2, 8),
        token(")", 2, 8, 2, 9),
        token("{", 2, 10, 2, 11),
        token("let", 3, 4, 3, 7),
        token("s", 3, 8, 3, 9),
        token("=", 3, 10, 3, 11),
        token("\"", 3, 12, 3, 13),
        token("STRING", 3, 13, 3, 16),
        token("\"", 3, 16, 3, 17),
        token(";", 3, 17, 3, 18),
        token("'\"'", 4, 4, 4, 7),
        token(";", 4, 7, 4, 8),
        token("NUMBER", 5, 4, 5, 6),
        token(";", 5, 6, 5, 7),
        token("NUMBER", 6, 4, 6, 8),
        token(";", 6, 8, 6, 9),
        token("STRING", 7, 4, 9, 1),
        token(";", 9, 1, 9, 2),
        token("}", 10, 0, 10, 1),
    ];

    assert_eq!(actual, expected);
}

#[test]
fn test_empty_source() {
    let source_code = "";
    let tree = parse_rust_code(source_code).unwrap();
    let actual = calculate_cpd_tokens(&tree, source_code).unwrap();
    assert_eq!(actual, Vec::new());
}

#[test]
fn test_malformed_source() {
    let source_code = r#"
fn main() {
    let s
}"#;

    let tree = parse_rust_code(source_code).unwrap();
    let actual = calculate_cpd_tokens(&tree, source_code).unwrap();
    let expected = vec![
        token("fn", 2, 0, 2, 2),
        token("main", 2, 3, 2, 7),
        token("(", 2, 7, 2, 8),
        token(")", 2, 8, 2, 9),
        token("{", 2, 10, 2, 11),
        token("let", 3, 4, 3, 7),
        token("s", 3, 8, 3, 9),
        token("}", 4, 0, 4, 1),
    ];

    assert_eq!(actual, expected);
}

#[test]
fn test_cpd_is_disabled_in_tests_module() {
    let source_code = r#"
fn foo() -> String {
    return "Hello".to_string();
}

#[cfg(test)]
mod tests {
    use super::*;
    #[test]
    fn test_foo() {
        assert_eq!(foo(), "Hello");
    }
}

fn bar() {}
"#;
    let tree = parse_rust_code(source_code).unwrap();
    let actual: Vec<String> = calculate_cpd_tokens(&tree, source_code)
        .unwrap()
        .iter()
        .map(|t| t.image.clone())
        .collect();
    let expected: Vec<String> = vec![
        "fn",
        "foo",
        "(",
        ")",
        "->",
        "String",
        "{",
        "return",
        "\"",
        "STRING",
        "\"",
        ".",
        "to_string",
        "(",
        ")",
        ";",
        "}",
        "fn",
        "bar",
        "(",
        ")",
        "{",
        "}",
    ]
    .iter()
    .map(|t| t.to_string())
    .collect();

    assert_eq!(actual, expected);
}

#[test]
fn test_is_cfg_test_attribute() {
    fn check(source: &str) -> bool {
        let tree = parse_rust_code(source).unwrap();
        let first = tree.child(tree.root(), 0).unwrap();
        is_cfg_test_attribute(&tree, first, source.as_bytes())
    }

    assert_eq!(check("#[cfg(test)]"), true);
    assert_eq!(check("#[ cfg (test ) ]"), true);
    assert_eq!(check("#[cfg(abc)]"), false);
    assert_eq!(check("#[cfg(target=\"Windows\")]"), false);
    assert_eq!(check("#[cfg(not(test))]"), false);
    assert_eq!(check("#[test]"), false);
}
