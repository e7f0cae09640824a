use analyzer::issue::SecondaryLocation;
use analyzer::location::SonarLocation;
use analyzer::parse::parse_rust_code;
use analyzer::rules::cognitive_complexity_check::CognitiveComplexityCheck;

const RULE_KEY: &str = "S3776";

#[test]
fn test_zero_complexity() {
    let source_code = r#"
fn main() {
}
"#;
    let rule = CognitiveComplexityCheck::new(0);
    let tree = parse_rust_code(source_code).unwrap();

    let actual = rule.check(&tree, source_code).unwrap();
    let expected = vec![];

    assert_eq!(actual, expected);
}

#[test]
fn if_else_complexity() {
    let source_code = r#"
fn foo(c1: bool, c2: bool) {
    if c1 { // +1
        if c2 { // +2 (incl 1 for nesting)
        
        } else { // +1
         
        }
    } else { // +1
    }
}
"#;
    let rule = CognitiveComplexityCheck::new(0);
    let tree = parse_rust_code(source_code).unwrap();

    let actual = rule.check(&tree, source_code).unwrap();

    assert_eq!(actual.len(), 1);
    assert_eq!(actual[0].rule_key, RULE_KEY);
    assert_eq!(
        actual[0].message,
        "Refactor this function to reduce its Cognitive Complexity from 5 to the 0 allowed."
    );
    assert_eq!(
        actual[0].location,
        SonarLocation {
            start_line: 2,
            start_column: 3,
            end_line: 2,
            end_column: 6
        }
    );

    assert_eq!(actual[0].secondary_locations.len(), 4);

    assert_eq!(
        actual[0].secondary_locations,
        vec![
            SecondaryLocation {
                message: "+1".to_owned(),
                location: SonarLocation {
                    start_line: 3,
                    start_column: 4,
                    end_line: 3,
                    end_column: 6
                }
            },
            SecondaryLocation {
                message: "+1".to_owned(),
                location: SonarLocation {
                    start_line: 9,
                    start_column: 6,
                    end_line: 9,
                    end_column: 10
                }
            },
            SecondaryLocation {
                message: "+2 (incl 1 for nesting)".to_owned(),
                location: SonarLocation {
                    start_line: 4,
                    start_column: 8,
                    end_line: 4,
                    end_column: 10
                }
            },
            SecondaryLocation {
                message: "+1".to_owned(),
                location: SonarLocation {
                    start_line: 6,
                    start_column: 10,
                    end_line: 6,
                    end_column: 14
                }
            },
        ]
    );
}

#[test]
fn test_nested_function_complexity() {
    let source_code = r#"
fn foo(c1: bool) {
    fn nested(c2: bool) {
        if c2 { // +2 (incl 1 for nesting)
        
        }
    }

    if c1 { // +1
    
    }
}
"#;
    let rule = CognitiveComplexityCheck::new(0);
    let tree = parse_rust_code(source_code).unwrap();

    let actual = rule.check(&tree, source_code).unwrap();

    assert_eq!(actual.len(), 1);
    assert_eq!(actual[0].rule_key, RULE_KEY);
    assert_eq!(
        actual[0].message,
        "Refactor this function to reduce its Cognitive Complexity from 3 to the 0 allowed."
    );
    assert_eq!(
        actual[0].location,
        SonarLocation {
            start_line: 2,
            start_column: 3,
            end_line: 2,
            end_column: 6
        }
    );

    assert_eq!(
        actual[0].secondary_locations,
        vec![
            SecondaryLocation {
                message: "+2 (incl 1 for nesting)".to_string(),
                location: SonarLocation {
                    start_line: 4,
                    start_column: 8,
                    end_line: 4,
                    end_column: 10
                }
            },
            SecondaryLocation {
                message: "+1".to_string(),
                location: SonarLocation {
                    start_line: 9,
                    start_column: 4,
                    end_line: 9,
                    end_column: 6
                }
            },
        ]
    );
}

#[test]
fn test_default_threshold() {
    let source_code = r#"
fn foo(c1: bool) {
    if c1 {} else {}
    if c1 {} else {}
    if c1 {} else {}
    if c1 {} else {}
    if c1 {} else {}
    if c1 {} else {}
    if c1 {} else {}
    if c1 {} else {}
}
"#;
    let rule = CognitiveComplexityCheck::new(15);
    let tree = parse_rust_code(source_code).unwrap();

    let actual = rule.check(&tree, source_code).unwrap();
    assert_eq!(actual.len(), 1);

    assert_eq!(actual.len(), 1);
    assert_eq!(actual[0].rule_key, RULE_KEY);
    assert_eq!(
        actual[0].message,
        "Refactor this function to reduce its Cognitive Complexity from 16 to the 15 allowed."
    );
    assert_eq!(
        actual[0].location,
        SonarLocation {
            start_line: 2,
            start_column: 3,
            end_line: 2,
            end_column: 6
        }
    );
    assert_eq!(actual[0].secondary_locations.len(), 16);
}
