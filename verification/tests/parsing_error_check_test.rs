use analyzer::issue::Issue;
use analyzer::location::SonarLocation;
use analyzer::parse::parse_rust_code;
use analyzer::rules::parsing_error_check::ParsingErrorCheck;

const RULE_KEY: &str = "S2260";

#[test]
fn test_compliant() {
    let source_code = r#"
fn main() {
    let x = 42;
}
"#;
    let rule = ParsingErrorCheck::new();
    let tree = parse_rust_code(source_code).unwrap();

    let actual = rule.check(&tree, source_code).unwrap();
    let expected = vec![];

    assert_eq!(actual, expected);
}

#[test]
fn test_noncompliant() {
    let source_code = r#"
fn main() {
    let x = 42
}

fn
"#;
    let rule = ParsingErrorCheck::new();
    let tree = parse_rust_code(source_code).unwrap();

    let actual = rule.check(&tree, source_code).unwrap();
    let expected = vec![
        Issue {
            rule_key: RULE_KEY.to_string(),
            message: "A syntax error occurred during parsing: missing \";\".".to_string(),
            location: SonarLocation {
                start_line: 3,
                start_column: 12,
                end_line: 3,
                end_column: 14,
            },
            secondary_locations: vec![],
        },
        Issue {
            rule_key: RULE_KEY.to_string(),
            message: "A syntax error occurred during parsing.".to_string(),
            location: SonarLocation {
                start_line: 6,
                start_column: 0,
                end_line: 6,
                end_column: 2,
            },
            secondary_locations: vec![],
        },
    ];

    assert_eq!(actual, expected);
}
