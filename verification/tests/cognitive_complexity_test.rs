use analyzer::parse::parse_rust_code;
use analyzer::tree::SyntaxTree;
use analyzer::visitors::cognitive_complexity::{
    calculate_cognitive_complexity, calculate_total_cognitive_complexity,
};

#[derive(Debug, PartialEq)]
struct IncrementLines {
    line: usize,
    increment: i32,
}

fn parse_in_main(source_code: &str) -> SyntaxTree {
    parse_rust_code(format!("fn main() {{ {} }}", source_code).as_str()).unwrap()
}

fn total_complexity(source_code: &str) -> i32 {
    let tree = parse_in_main(source_code);
    calculate_total_cognitive_complexity(&tree).unwrap()
}

/// Reads the expected increments from the `// +N` comments of the source.
fn collect_complexity_increments(source_code: &str) -> Vec<IncrementLines> {
    let mut increments = vec![];
    for (row, line) in source_code.lines().enumerate() {
        if let Some(pos) = line.find("//") {
            let text = line[pos..].trim_start_matches("//").trim();
            if text.starts_with("+") {
                let digits: String = text[1..]
                    .chars()
                    .take_while(|c| c.is_ascii_digit())
                    .collect();
                if !digits.is_empty() {
                    increments.push(IncrementLines {
                        line: row,
                        increment: digits.parse::<i32>().expect("parse increment"),
                    });
                }
            }
        }
    }
    increments
}

fn check_complexity(source_code: &str) {
    let tree = parse_in_main(source_code);

    let increments = calculate_cognitive_complexity(&tree, tree.root()).unwrap();
    let mut expected_increments_by_line = collect_complexity_increments(source_code);

    let actual_total: i32 = increments.iter().map(|inc| inc.nesting as i32 + 1).sum();
    let expected_total: i32 = expected_increments_by_line
        .iter()
        .map(|inc| inc.increment)
        .sum();

    assert_eq!(
        actual_total, expected_total,
        "Expected total cognitive complexity to be {}",
        expected_total
    );

    let mut actual_increments_by_line = increments
        .iter()
        .map(|inc| IncrementLines {
            // the test source is wrapped in `fn main() { ... }`, which adds no line
            line: inc.location.start_row,
            increment: inc.nesting as i32 + 1,
        })
        .collect::<Vec<_>>();

    let sort_by_line = |a: &IncrementLines, b: &IncrementLines| a.line.cmp(&b.line);

    actual_increments_by_line.sort_by(sort_by_line);
    expected_increments_by_line.sort_by(sort_by_line);

    assert_eq!(actual_increments_by_line, expected_increments_by_line);
}

#[test]
fn cognitive_complexity_test_empty() {
    // Empty function with zero complexiy
    check_complexity("");
}

#[test]
fn cognitive_complexity_test_if_else() {
    check_complexity(
        "
if x { // +1
    42
}",
    );
    check_complexity(
        "
    if x { // +1 
        42
    } else { // +1
        43
    }",
    );
    check_complexity(
        "
if x { // +1
    42
} else if y { //+1
    43
}",
    );
    check_complexity(
        "
if x { // +1
    42
} else if y { // +1
    43
} else { // +1
    44
}",
    );
}

#[test]
fn cognitive_complexity_test_nested_else() {
    check_complexity(
        r#"
if x { // +1
    42
} else { // +1
    if y { // +2
        43
    }
}"#,
    );
    check_complexity(
        r#"
if x { // +1
    42
} else if y { // +1
    if z { // +2
        43
    } else { // +1
        44
    }
}"#,
    );
}

#[test]
fn cognitive_complexity_test_while() {
    check_complexity(
        r#"
while cond1 { // +1
    if cond2 { // +2
        42
    } else { // +1
        43
    }
}"#,
    );
    check_complexity(
        r#"
if x { // +1
    while y { // +2
        if z { // +3
        
        }
    }
    if z { // +2
    }
}"#,
    );
}

#[test]
fn cognitive_complexity_test_loop() {
    check_complexity(
        r#"
loop { // +1
    if cond { // +2
        break;
    }
}"#,
    );
}

#[test]
fn cognitive_complexity_test_for() {
    check_complexity(
        r#"
for x in y { // +1
    if cond { // +2
    }
}"#,
    );
}

#[test]
fn cognitive_complexity_test_match() {
    check_complexity(
        r#"
match x { // +1
    "a" => 1,
    "b" => 2,
    _ => 3
}        
"#,
    );
    check_complexity(
        r#"
match x { // +1
    "a" => 1,
    "b" => {
        if y { // +2
        
        } else { //+1
         
        }
    },
    _ => 3
}
"#,
    );
}

#[test]
fn cognitive_complexity_test_break() {
    check_complexity(
        r#"
'outer: for i in 1..=5 { // +1
    '_inner: for j in 1..=200 { // +2
        if j >= 3 { // +3
            break;
        }
        if i >= 2 { // +3
            break 'outer; // +1
        }
    }
}"#,
    );
}

#[test]
fn cognitive_complexity_test_continue() {
    check_complexity(
        r#"
'tens: for ten in 0..3 { // +1
    '_units: for unit in 0..=9 { // +2
        if unit % 2 == 0 { // +3
            continue;
        }
        if unit > 5 { // +3
            continue 'tens; // +1
        }
        println!("{}", ten * 10 + unit);
    }
}
"#,
    );
}

#[test]
fn cognitive_complexity_test_binary_operators() {
    assert_eq!(total_complexity("a && b"), 1);
    assert_eq!(total_complexity("a || b"), 1);
    assert_eq!(total_complexity("a && b && c"), 1);
    assert_eq!(total_complexity("a || b || c"), 1);
    assert_eq!(total_complexity("a || b && c"), 2);
    assert_eq!(total_complexity("a || b && c || d"), 3);
}

#[test]
fn cognitive_complexity_test_nested_binary_operator() {
    assert_eq!(total_complexity("if x { a && b }"), 2);
    assert_eq!(total_complexity("if x { if y && z { 42 } }"), 4);
    assert_eq!(
        total_complexity("for x in 0..5 { if y && z || a { 42 } }"),
        5
    );
}

#[test]
fn test_nested_function() {
    check_complexity(
        r#"
    if x { // +1
    }
    fn nested() {
        if y { // +2
        }
    }
    if z { // +1
    }
"#,
    );
}

#[test]
fn test_closures() {
    check_complexity(
        r#"
    if x { // +1
    }
    invoke(|a, b| {
        if a { // +2
        }    
    });
    if y { // +1
    }
"#,
    );
}

#[test]
fn complex_nested_functions() {
    check_complexity(
        r#"
    let y = foo(x);
    if y == 0 { // +1
        fn foo(x: i32) -> i32 { // this increases nesting level
            if x > 0 { // +3
                42
            } else { // +1
                43
            }
        }

        if z == 0 { // +2
            return 42;
        }
    } else { // +1
        return 44;
    }
    return 45;
        "#,
    );
}
