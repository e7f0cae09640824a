use analyzer::analyze::analyze;
use analyzer::issue::find_issues;
use analyzer::location::SonarLocation;
use analyzer::parse::parse_rust_code;
use analyzer::protocol::{encode_int, encode_string, write_location};
use analyzer::rules::rule::{all_rules, RuleInstance};
use analyzer::samples::fizz_buzz;
use analyzer::text::is_blank;
use analyzer::tree::{AnalyzerError, NodeKind};

#[test]
fn test_blank_lines() {
    assert!(is_blank(""));
    assert!(is_blank("   \t"));
    assert!(is_blank("*****"));
    assert!(is_blank(" * ) "));
    assert!(!is_blank(" hello "));
    assert!(!is_blank("* a *"));
}

#[test]
fn test_protocol_encoding() {
    assert_eq!(encode_int(1), vec![0, 0, 0, 1]);
    assert_eq!(encode_int(-1), vec![0xFF, 0xFF, 0xFF, 0xFF]);
    assert_eq!(encode_int(0x01020304), vec![1, 2, 3, 4]);
    assert_eq!(encode_string("ab"), vec![0, 0, 0, 2, 0x61, 0x62]);
    let loc = SonarLocation {
        start_line: 1,
        start_column: 2,
        end_line: 3,
        end_column: 260,
    };
    assert_eq!(
        write_location(&loc),
        vec![0, 0, 0, 1, 0, 0, 0, 2, 0, 0, 0, 3, 0, 0, 1, 4]
    );
}

#[test]
fn test_rule_configuration() {
    // missing threshold parameter
    let params: Vec<(String, String)> = vec![];
    match all_rules(&params) {
        Err(AnalyzerError::GlobalError(m)) => {
            assert_eq!(m, "rule parameter for 'S3776:threshold' not found")
        }
        _ => panic!("expected a global error for a missing parameter"),
    }
    // unparseable threshold parameter
    let params = vec![("S3776:threshold".to_string(), "abc".to_string())];
    match all_rules(&params) {
        Err(AnalyzerError::GlobalError(m)) => {
            assert_eq!(m, "could not parse 'S3776:threshold' parameter")
        }
        _ => panic!("expected a global error for a bad parameter"),
    }
    // a well-formed configuration yields both rules, in order
    let params = vec![("S3776:threshold".to_string(), "15".to_string())];
    let rules = all_rules(&params).unwrap();
    assert_eq!(rules.len(), 2);
    match &rules[0] {
        RuleInstance::CognitiveComplexity(c) => assert_eq!(c.threshold, 15),
        _ => panic!("expected the cognitive complexity rule first"),
    }
    match &rules[1] {
        RuleInstance::ParsingError(_) => {}
        _ => panic!("expected the parsing error rule second"),
    }
    // a negative threshold parses too
    let params = vec![("S3776:threshold".to_string(), "-3".to_string())];
    let rules = all_rules(&params).unwrap();
    match &rules[0] {
        RuleInstance::CognitiveComplexity(c) => assert_eq!(c.threshold, -3),
        _ => panic!("expected the cognitive complexity rule first"),
    }
}

#[test]
fn test_find_issues_twice() {
    // running the engine twice on the same input gives equal issue sequences
    let source_code = "\nfn main() {\n    let x = 42\n}\n\nfn\n";
    let tree = parse_rust_code(source_code).unwrap();
    let first = find_issues(&tree, source_code).unwrap();
    let second = find_issues(&tree, source_code).unwrap();
    assert_eq!(first, second);
    assert_eq!(first.len(), 2);
}

#[test]
fn test_number_rendering() {
    assert_eq!(fizz_buzz(7), "7");
    assert_eq!(fizz_buzz(-8), "-8");
    assert_eq!(fizz_buzz(15), "fizzbuzz");
    assert_eq!(fizz_buzz(1234567), "1234567");
}

#[test]
fn test_analyze_empty_source() {
    // an empty file parses; its root node is itself a leaf on line one
    let output = analyze("").unwrap();
    assert_eq!(output.metrics.ncloc, 1);
    assert_eq!(output.metrics.functions, 0);
    assert_eq!(output.cpd_tokens.len(), 0);
    assert_eq!(output.issues.len(), 0);
}

#[test]
fn test_cpd_image_not_copied_verbatim() {
    // a number leaf is collapsed, so the image differs from the source text
    let source_code = "fn f() { 42; }";
    let tree = parse_rust_code(source_code).unwrap();
    let tokens = analyzer::visitors::cpd::calculate_cpd_tokens(&tree, source_code).unwrap();
    assert!(tokens.iter().any(|t| t.image == "NUMBER"));
    assert!(!tokens.iter().any(|t| t.image == "42"));
}

#[test]
fn test_next_node_matching() {
    // two functions: repeated calls enumerate them in post-order
    let source_code = "fn a() {}\nfn b() {}\n";
    let tree = parse_rust_code(source_code).unwrap();
    let first = analyzer::tree::next_node_matching(&tree, 0, NodeKind::FunctionItem).unwrap();
    let second =
        analyzer::tree::next_node_matching(&tree, first + 1, NodeKind::FunctionItem).unwrap();
    assert!(first < second);
    assert!(analyzer::tree::next_node_matching(&tree, second + 1, NodeKind::FunctionItem).is_none());
    assert!(analyzer::tree::next_node_matching(&tree, 0, NodeKind::ForExpression).is_none());
}
