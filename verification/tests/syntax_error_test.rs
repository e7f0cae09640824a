use analyzer::location::SonarLocation;
use analyzer::parse::parse_rust_code;
use analyzer::visitors::syntax_error::{find_syntax_errors, SyntaxError};

#[test]
fn test_syntax_errors() {
    let source_code = r#"
fn main() {
    let x = 42
}

fn
"#;
    let tree = parse_rust_code(source_code).unwrap();
    let actual = find_syntax_errors(&tree, source_code);
    let expected = vec![
        SyntaxError {
            message: "A syntax error occurred during parsing: missing \";\".".to_string(),
            location: SonarLocation {
                start_line: 3,
                start_column: 14,
                end_line: 3,
                end_column: 15,
            },
        },
        SyntaxError {
            message: "A syntax error occurred during parsing.".to_string(),
            location: SonarLocation {
                start_line: 6,
                start_column: 0,
                end_line: 6,
                end_column: 2,
            },
        },
    ];
    assert_eq!(actual, expected);
}
