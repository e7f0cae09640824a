use analyzer::parse::parse_rust_code;
use analyzer::visitors::metrics::{calculate_metrics, Metrics};

#[test]
fn test_comment_metrics() {
    let source_code = r#"
/* Hello */
fn main() {
    let x = "foo"; // Set 'x' to 'foo'
}         
"#;
    let tree = parse_rust_code(source_code).unwrap();
    let actual = calculate_metrics(&tree, source_code).unwrap();

    assert_eq!(
        actual,
        Metrics {
            ncloc: 3,
            comment_lines: 2,
            functions: 1,
            statements: 1,
            classes: 0,
            cognitive_complexity: 0,
            cyclomatic_complexity: 1
        }
    );
}

#[test]
fn test_comment_metrics_doc_comment() {
    let source_code = r#"
/// This main function does something wonderful.
/// Even more wonderful than what you can imagine.
fn main() {
    let x = "foo";
}
"#;
    let tree = parse_rust_code(source_code).unwrap();
    let actual = calculate_metrics(&tree, source_code).unwrap();

    assert_eq!(
        actual,
        Metrics {
            ncloc: 3,
            comment_lines: 2,
            functions: 1,
            statements: 1,
            classes: 0,
            cognitive_complexity: 0,
            cyclomatic_complexity: 1
        }
    );
}

#[test]
fn test_comment_metrics_empty_lines() {
    let source_code = r#"
/**
 * 
 * This is a comment
 **********************
 *
 * blabla
 */
fn main() {
    let x = "foo";
}
"#;
    let tree = parse_rust_code(source_code).unwrap();
    let actual = calculate_metrics(&tree, source_code).unwrap();

    assert_eq!(
        actual,
        Metrics {
            ncloc: 3,
            comment_lines: 2,
            functions: 1,
            statements: 1,
            classes: 0,
            cognitive_complexity: 0,
            cyclomatic_complexity: 1,
        }
    );
}

#[test]
fn test_class_and_function_metrics() {
    let source_code = r#"
enum Color {
    Red,
    Green,
    Blue
}

struct Point {
    x: i32,
    y: i32,
}

impl Point {
    fn new(x: i32, y: i32) -> Point {
        Point { x, y }
    }
}

fn main() {
    let x = "foo";
    ; // Empty statement
}
"#;
    let tree = parse_rust_code(source_code).unwrap();
    let actual = calculate_metrics(&tree, source_code).unwrap();

    assert_eq!(
        actual,
        Metrics {
            ncloc: 18,
            comment_lines: 1,
            functions: 2,
            statements: 2,
            classes: 2,
            cognitive_complexity: 0,
            cyclomatic_complexity: 2
        }
    );
}
