//! The rule registry: the configured rule set, built from a flat
//! string-to-string parameter map.
use vstd::prelude::*;

verus! {

use crate::rules::cognitive_complexity_check::CognitiveComplexityCheck;
use crate::rules::parsing_error_check::{ParsingErrorCheck, spec_s2260_ok_children};
use crate::text::str_eq;
use crate::tree::{AnalyzerError, NodeData};
use vstd::string::{StrSliceExecFns, StringExecFns};

/// A walk that hits no violation up to child `m` hits none up to any
/// earlier child.
pub proof fn lemma_s2260_ok_children_prefix(
    nodes: Seq<NodeData>,
    parents: Seq<Option<usize>>,
    i: int,
    k: int,
    m: int,
)
    requires
        0 <= k <= m,
        spec_s2260_ok_children(nodes, parents, i, m),
    ensures
        spec_s2260_ok_children(nodes, parents, i, k),
    decreases m,
{
    if k < m {
        lemma_s2260_ok_children_prefix(nodes, parents, i, k, m - 1);
    }
}

/// One configured rule.
pub enum RuleInstance {
    CognitiveComplexity(CognitiveComplexityCheck),
    ParsingError(ParsingErrorCheck),
}

/// The value of the first pair with the given key.
pub open spec fn spec_lookup(params: Seq<(Seq<char>, Seq<char>)>, key: Seq<char>, k: int) -> Option<
    Seq<char>,
>
    decreases params.len() - k,
{
    if k < 0 || k >= params.len() {
        None
    } else if params[k].0 == key {
        Some(params[k].1)
    } else {
        spec_lookup(params, key, k + 1)
    }
}

pub open spec fn param_views(params: Seq<(String, String)>) -> Seq<(Seq<char>, Seq<char>)> {
    Seq::new(params.len(), |j: int| (params[j].0@, params[j].1@))
}

/// Looks up the first value stored under `key`.
#[verifier::loop_isolation(false)]
fn lookup(parameters: &Vec<(String, String)>, key: &str) -> (r: Option<String>)
    ensures
        match r {
            Some(v) => spec_lookup(param_views(parameters@), key@, 0) == Some(v@),
            None => spec_lookup(param_views(parameters@), key@, 0) is None,
        },
{
    let n = parameters.len();
    let mut k: usize = 0;
    while k < n
        invariant
            k <= n,
            spec_lookup(param_views(parameters@), key@, 0) == spec_lookup(
                param_views(parameters@),
                key@,
                k as int,
            ),
        decreases n - k,
    {
        if str_eq(parameters[k].0.as_str(), key) {
            let v = clone_string(&parameters[k].1);
            return Some(v);
        }
        k = k + 1;
    }
    None
}

fn clone_string(s: &String) -> (r: String)
    ensures
        r@ == s@,
{
    String::from_str(s.as_str())
}

/// The numeric value of a digit character, or `None`.
pub open spec fn spec_digit(c: char) -> Option<int> {
    let u = c as u32;
    if 0x30 <= u && u <= 0x39 {
        Some((u - 0x30) as int)
    } else {
        None
    }
}

/// The value of a digit string, folded left to right and clamped at
/// `0x1_0000_0000` so that any overflowing value stays recognizably out of
/// the 32-bit range.
pub open spec fn spec_digits_val(s: Seq<char>, k: int, acc: int) -> Option<int>
    decreases s.len() - k,
{
    if k < 0 || k >= s.len() {
        Some(acc)
    } else {
        match spec_digit(s[k]) {
            Some(d) => {
                let acc2 = if acc * 10 + d > 0x1_0000_0000 {
                    0x1_0000_0000
                } else {
                    acc * 10 + d
                };
                spec_digits_val(s, k + 1, acc2)
            },
            None => None,
        }
    }
}

/// The 32-bit integer a string parses to, or `None`: an optional sign
/// followed by at least one digit, with the magnitude in range.
pub open spec fn spec_parse_i32(s: Seq<char>) -> Option<int> {
    let negative = s.len() > 0 && s[0] == '-';
    let signed = s.len() > 0 && (s[0] == '-' || s[0] == '+');
    let digits = if signed {
        s.subrange(1, s.len() as int)
    } else {
        s
    };
    if digits.len() == 0 {
        None
    } else {
        match spec_digits_val(digits, 0, 0) {
            Some(v) => {
                if negative {
                    if v <= 0x8000_0000 {
                        Some(-v)
                    } else {
                        None
                    }
                } else {
                    if v <= 0x7FFF_FFFF {
                        Some(v)
                    } else {
                        None
                    }
                }
            },
            None => None,
        }
    }
}

/// Parses a 32-bit integer as `str::parse::<i32>` accepts it.
#[verifier::loop_isolation(false)]
#[verifier::rlimit(60)]
pub fn parse_i32(s: &str) -> (r: Option<i32>)
    ensures
        match r {
            Some(v) => spec_parse_i32(s@) == Some(v as int),
            None => spec_parse_i32(s@) is None,
        },
{
    let len = s.unicode_len();
    if len == 0 {
        return None;
    }
    let first = s.get_char(0);
    let negative = first == '-';
    let signed = first == '-' || first == '+';
    let start: usize = if signed {
        1
    } else {
        0
    };
    let ghost digits = if signed {
        s@.subrange(1, s@.len() as int)
    } else {
        s@
    };
    if len - start == 0 {
        return None;
    }
    let mut acc: u64 = 0;
    let mut k: usize = start;
    while k < len
        invariant
            start <= k <= len,
            len == s@.len(),
            acc <= 0x1_0000_0000,
            spec_digits_val(digits, 0, 0) == spec_digits_val(digits, k - start, acc as int),
        decreases len - k,
    {
        let c = s.get_char(k);
        let u = c as u32;
        if !(0x30 <= u && u <= 0x39) {
            return None;
        }
        let d = (u - 0x30) as u64;
        proof {
            assert(digits[k - start] == s@[k as int]);
        }
        let acc2 = acc * 10 + d;
        acc = if acc2 > 0x1_0000_0000 {
            0x1_0000_0000
        } else {
            acc2
        };
        k = k + 1;
    }
    proof {
        assert(spec_digits_val(digits, digits.len() as int, acc as int) == Some(acc as int));
    }
    if negative {
        if acc <= 0x8000_0000 {
            let neg: i64 = 0i64 - (acc as i64);
            Some(neg as i32)
        } else {
            None
        }
    } else {
        if acc <= 0x7FFF_FFFF {
            Some(acc as i32)
        } else {
            None
        }
    }
}

/// Builds the configured rule set: the cognitive-complexity rule with the
/// threshold from the `S3776:threshold` parameter, then the parsing-error
/// rule. A missing or unparseable threshold is a `GlobalError`.
pub fn all_rules(parameters: &Vec<(String, String)>) -> (r: Result<
    Vec<RuleInstance>,
    AnalyzerError,
>)
    ensures
        r is Ok <==> (spec_lookup(param_views(parameters@), "S3776:threshold"@, 0) matches Some(v)
            && spec_parse_i32(v) is Some),
        r matches Ok(rules) ==> rules@.len() == 2 && (rules@[0] matches
            RuleInstance::CognitiveComplexity(c) && Some(c.threshold as int) == spec_parse_i32(
            spec_lookup(param_views(parameters@), "S3776:threshold"@, 0).unwrap(),
        )) && rules@[1] is ParsingError,
        r matches Err(e) ==> e matches AnalyzerError::GlobalError(m) && (if spec_lookup(
            param_views(parameters@),
            "S3776:threshold"@,
            0,
        ) is None {
            m@ == "rule parameter for 'S3776:threshold' not found"@
        } else {
            m@ == "could not parse 'S3776:threshold' parameter"@
        }),
{
    let value = match lookup(parameters, "S3776:threshold") {
        Some(v) => v,
        None => {
            return Err(
                AnalyzerError::GlobalError(
                    String::from_str("rule parameter for 'S3776:threshold' not found"),
                ),
            );
        },
    };
    let threshold = match parse_i32(value.as_str()) {
        Some(t) => t,
        None => {
            return Err(
                AnalyzerError::GlobalError(
                    String::from_str("could not parse 'S3776:threshold' parameter"),
                ),
            );
        },
    };
    let mut rules: Vec<RuleInstance> = Vec::new();
    rules.push(RuleInstance::CognitiveComplexity(CognitiveComplexityCheck::new(threshold)));
    rules.push(RuleInstance::ParsingError(ParsingErrorCheck::new()));
    Ok(rules)
}

} // verus!
