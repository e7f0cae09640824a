//! The cognitive-complexity rule: for each outer function whose complexity
//! exceeds the configured threshold, one issue on the function's name, with
//! one secondary location per increment.
use vstd::prelude::*;

verus! {

use crate::issue::{Issue, SecondaryLocation, SpecIssue, SpecSecondary, issue_views};
use crate::location::{SonarLocation, loc_in_source, sonar_location_checked, spec_node_sonar, spec_to_sonar};
use crate::text::{dec_string, i32_string, spec_dec_chars, spec_i32_chars};
use crate::tree::{AnalyzerError, FieldName, NodeData, NodeKind, SyntaxTree, child_by_field, spec_child_by_field, wf_node};
use crate::visitors::cognitive_complexity::{
    Increment,
    calculate_cognitive_complexity,
    spec_cc_node,
    spec_cc_ok,
    spec_cc_walk_error_message,
    spec_map_incs,
    spec_total_of,
    total_of,
};
use vstd::string::{StrSliceExecFns, StringExecFns, StringSliceAdditionalSpecFns};

/// Whether no ancestor of `j` is a function definition.
pub open spec fn spec_no_fn_ancestor(
    nodes: Seq<NodeData>,
    parents: Seq<Option<usize>>,
    j: int,
) -> bool
    decreases nodes.len() - j,
{
    match parents[j] {
        Some(p) => {
            if j < p < nodes.len() {
                nodes[p as int].kind != NodeKind::FunctionItem && spec_no_fn_ancestor(
                    nodes,
                    parents,
                    p as int,
                )
            } else {
                true
            }
        },
        None => true,
    }
}

/// An outer function: a function definition not nested in another one.
pub open spec fn spec_is_outer_fn(nodes: Seq<NodeData>, parents: Seq<Option<usize>>, i: int) -> bool {
    nodes[i].kind == NodeKind::FunctionItem && spec_no_fn_ancestor(nodes, parents, i)
}

/// Decides whether `node` is a function definition with no enclosing
/// function definition.
#[verifier::loop_isolation(false)]
pub fn is_outer_function_node(tree: &SyntaxTree, node: usize) -> (r: bool)
    requires
        tree.wf(),
        node < tree.nodes@.len(),
    ensures
        r == spec_is_outer_fn(tree.nodes@, tree.parents@, node as int),
{
    if tree.nodes[node].kind != NodeKind::FunctionItem {
        return false;
    }
    let mut j: usize = node;
    loop
        invariant
            node <= j < tree.nodes@.len(),
            spec_no_fn_ancestor(tree.nodes@, tree.parents@, node as int) == spec_no_fn_ancestor(
                tree.nodes@,
                tree.parents@,
                j as int,
            ),
        decreases tree.nodes@.len() - j,
    {
        proof {
            assert(wf_node(tree.nodes@, tree.parents@, tree.src_len, tree.n_lines, j as int));
        }
        match tree.parents[j] {
            Some(p) => {
                if tree.nodes[p].kind == NodeKind::FunctionItem {
                    return false;
                }
                j = p;
            },
            None => { return true },
        }
    }
}

/// The messages with which this rule can fail.
pub open spec fn spec_s3776_error_message(m: Seq<char>) -> bool {
    ||| spec_cc_walk_error_message(m)
    ||| m == "the cognitive complexity does not fit the reported range"@
    ||| m == "A function_item node should have a 'name' field"@
    ||| m == "an increment lies outside the source"@
}

/// The message of an issue of this rule.
pub open spec fn spec_refactor_message(total: int, threshold: int) -> Seq<char> {
    "Refactor this function to reduce its Cognitive Complexity from "@ + spec_dec_chars(total)
        + " to the "@ + spec_i32_chars(threshold) + " allowed."@
}

/// The message of a secondary location: the increment's contribution, and
/// the share that nesting added.
pub open spec fn spec_inc_message(nesting: int) -> Seq<char> {
    if nesting == 0 {
        "+"@ + spec_dec_chars(nesting + 1)
    } else {
        "+"@ + spec_dec_chars(nesting + 1) + " (incl "@ + spec_dec_chars(nesting)
            + " for nesting)"@
    }
}

/// The secondary locations of one function's increments.
pub open spec fn spec_secondaries(incs: Seq<Increment>, src: Seq<u8>) -> Seq<SpecSecondary> {
    Seq::new(
        incs.len(),
        |j: int|
            SpecSecondary {
                message: spec_inc_message(incs[j].nesting as int),
                location: spec_to_sonar(incs[j].location, src),
            },
    )
}

/// The walk's increments for the region rooted at `i`.
pub open spec fn spec_fn_incs(nodes: Seq<NodeData>, parents: Seq<Option<usize>>, i: int) -> Seq<
    Increment,
> {
    spec_map_incs(nodes, spec_cc_node(nodes, parents, i, 0, 0))
}

/// What must hold of one outer function for the rule to finish: its walk
/// reports no violation, its total fits the reported range, and when it is
/// over the threshold its name and every increment span are usable.
pub open spec fn spec_fn_rule_ok(
    nodes: Seq<NodeData>,
    parents: Seq<Option<usize>>,
    src: Seq<u8>,
    threshold: int,
    i: int,
) -> bool {
    let incs = spec_fn_incs(nodes, parents, i);
    &&& spec_cc_ok(nodes, parents, i)
    &&& spec_total_of(incs) <= i32::MAX
    &&& (spec_total_of(incs) > threshold ==> {
        &&& spec_child_by_field(nodes, i, FieldName::Name) is Some
        &&& forall|j: int|
            0 <= j < incs.len() ==> loc_in_source((#[trigger] incs[j]).location, src)
    })
}

/// Whether the rule finishes, scanning the nodes from `i` on.
pub open spec fn spec_s3776_ok(
    nodes: Seq<NodeData>,
    parents: Seq<Option<usize>>,
    src: Seq<u8>,
    threshold: int,
    i: int,
) -> bool
    decreases nodes.len() - i,
{
    if i < 0 || i >= nodes.len() {
        true
    } else {
        (spec_is_outer_fn(nodes, parents, i) ==> spec_fn_rule_ok(
            nodes,
            parents,
            src,
            threshold,
            i,
        )) && spec_s3776_ok(nodes, parents, src, threshold, i + 1)
    }
}

/// The issues of the rule, scanning the nodes from `i` on: outer functions
/// in post-order, one issue when the total exceeds the threshold.
pub open spec fn spec_s3776_issues(
    nodes: Seq<NodeData>,
    parents: Seq<Option<usize>>,
    src: Seq<u8>,
    threshold: int,
    i: int,
) -> Seq<SpecIssue>
    decreases nodes.len() - i,
{
    if i < 0 || i >= nodes.len() {
        Seq::empty()
    } else {
        (if spec_is_outer_fn(nodes, parents, i) && spec_fn_rule_ok(nodes, parents, src, threshold, i)
            && spec_total_of(spec_fn_incs(nodes, parents, i)) > threshold {
            seq![
                SpecIssue {
                    rule_key: "S3776"@,
                    message: spec_refactor_message(
                        spec_total_of(spec_fn_incs(nodes, parents, i)),
                        threshold,
                    ),
                    location: spec_node_sonar(
                        nodes,
                        spec_child_by_field(nodes, i, FieldName::Name).unwrap() as int,
                        src,
                    ),
                    secondary_locations: spec_secondaries(spec_fn_incs(nodes, parents, i), src),
                },
            ]
        } else {
            Seq::empty()
        }) + spec_s3776_issues(nodes, parents, src, threshold, i + 1)
    }
}

/// No element of a sequence of increments outweighs its total.
proof fn lemma_total_of_element(incs: Seq<Increment>, j: int)
    requires
        0 <= j < incs.len(),
    ensures
        incs[j].nesting < spec_total_of(incs),
    decreases incs.len(),
{
    if j == incs.len() - 1 {
        lemma_total_of_nonneg(incs.drop_last());
    } else {
        lemma_total_of_element(incs.drop_last(), j);
    }
}

proof fn lemma_total_of_nonneg(incs: Seq<Increment>)
    ensures
        spec_total_of(incs) >= 0,
    decreases incs.len(),
{
    if incs.len() > 0 {
        lemma_total_of_nonneg(incs.drop_last());
    }
}

/// The cognitive-complexity rule, with its configured threshold.
pub struct CognitiveComplexityCheck {
    pub threshold: i32,
}

impl CognitiveComplexityCheck {
    /// Builds the rule with the given threshold.
    pub fn new(threshold: i32) -> (r: Self)
        ensures
            r.threshold == threshold,
    {
        CognitiveComplexityCheck { threshold }
    }

    /// Builds the secondary locations of one function's increments.
    #[verifier::loop_isolation(false)]
    fn build_secondaries(incs: &Vec<Increment>, src: &[u8]) -> (r: Option<Vec<SecondaryLocation>>)
        requires
            src@.len() <= crate::text::SRC_LIMIT,
            spec_total_of(incs@) <= i32::MAX,
        ensures
            r is Some <==> (forall|j: int|
                0 <= j < incs@.len() ==> loc_in_source((#[trigger] incs@[j]).location, src@)),
            r matches Some(v) ==> Seq::new(v@.len(), |j: int| v@[j]@) == spec_secondaries(
                incs@,
                src@,
            ),
    {
        let n = incs.len();
        let mut out: Vec<SecondaryLocation> = Vec::new();
        let mut k: usize = 0;
        while k < n
            invariant
                k <= n,
                out@.len() == k,
                forall|j: int|
                    0 <= j < k ==> loc_in_source((#[trigger] incs@[j]).location, src@),
                forall|j: int|
                    0 <= j < k ==> (#[trigger] out@[j])@ == (SpecSecondary {
                        message: spec_inc_message(incs@[j].nesting as int),
                        location: spec_to_sonar(incs@[j].location, src@),
                    }),
            decreases n - k,
        {
            let inc = &incs[k];
            let location = match sonar_location_checked(&inc.location, src) {
                Some(l) => l,
                None => { return None },
            };
            proof {
                lemma_total_of_element(incs@, k as int);
            }
            let message: String = if inc.nesting == 0 {
                let mut msg = String::from_str("+");
                msg.append(dec_string(inc.nesting + 1).as_str());
                msg
            } else {
                let mut msg = String::from_str("+");
                msg.append(dec_string(inc.nesting + 1).as_str());
                msg.append(" (incl ");
                msg.append(dec_string(inc.nesting).as_str());
                msg.append(" for nesting)");
                msg
            };
            out.push(SecondaryLocation { message, location });
            k = k + 1;
        }
        proof {
            assert(Seq::new(out@.len(), |j: int| out@[j]@) =~= spec_secondaries(incs@, src@));
        }
        Some(out)
    }

    /// Reports one issue per outer function whose cognitive complexity
    /// exceeds the threshold: the issue sits on the function's name, its
    /// message names the total and the threshold, and each increment becomes
    /// a secondary location in discovery order.
    #[verifier::loop_isolation(false)]
    #[verifier::rlimit(100)]
    pub fn check(&self, tree: &SyntaxTree, source_code: &str) -> (r: Result<
        Vec<Issue>,
        AnalyzerError,
    >)
        requires
            tree.wf(),
            source_code.spec_bytes().len() == tree.src_len,
        ensures
            r is Ok <==> spec_s3776_ok(
                tree.nodes@,
                tree.parents@,
                source_code.spec_bytes(),
                self.threshold as int,
                0,
            ),
            r matches Ok(v) ==> issue_views(v@) == spec_s3776_issues(
                tree.nodes@,
                tree.parents@,
                source_code.spec_bytes(),
                self.threshold as int,
                0,
            ),
            r matches Err(e) ==> e matches AnalyzerError::FileError(m)
                && spec_s3776_error_message(m@),
    {
        let ghost nodes = tree.nodes@;
        let ghost parents = tree.parents@;
        let ghost src = source_code.spec_bytes();
        let ghost thr = self.threshold as int;
        let source_bytes = source_code.as_bytes();
        let n = tree.nodes.len();
        let mut out: Vec<Issue> = Vec::new();
        let mut i: usize = 0;
        let ghost full = spec_s3776_issues(nodes, parents, src, thr, 0);
        proof {
            assert(issue_views(out@) =~~= full.take(
                full.len() - spec_s3776_issues(nodes, parents, src, thr, 0).len(),
            ));
        }
        while i < n
            invariant
                i <= n,
                spec_s3776_ok(nodes, parents, src, thr, 0) == spec_s3776_ok(
                    nodes,
                    parents,
                    src,
                    thr,
                    i as int,
                ),
                issue_views(out@) == full.take(
                    full.len() - spec_s3776_issues(nodes, parents, src, thr, i as int).len(),
                ),
                full == full.take(
                    full.len() - spec_s3776_issues(nodes, parents, src, thr, i as int).len(),
                ) + spec_s3776_issues(nodes, parents, src, thr, i as int),
            decreases n - i,
        {
            let ghost rest_i = spec_s3776_issues(nodes, parents, src, thr, i as int);
            let ghost rest_i1 = spec_s3776_issues(nodes, parents, src, thr, i + 1);
            if is_outer_function_node(tree, i) {
                let incs = match calculate_cognitive_complexity(tree, i) {
                    Ok(v) => v,
                    Err(e) => { return Err(e) },
                };
                proof {
                    lemma_total_of_nonneg(incs@);
                }
                let total = match total_of(&incs) {
                    Some(t) => t,
                    None => {
                        return Err(
                            AnalyzerError::FileError(
                                String::from_str(
                                    "the cognitive complexity does not fit the reported range",
                                ),
                            ),
                        );
                    },
                };
                if total > self.threshold {
                    let name = match child_by_field(tree, i, FieldName::Name) {
                        Some(c) => c,
                        None => {
                            return Err(
                                AnalyzerError::FileError(
                                    String::from_str(
                                        "A function_item node should have a 'name' field",
                                    ),
                                ),
                            );
                        },
                    };
                    let secondary_locations = match Self::build_secondaries(&incs, source_bytes) {
                        Some(v) => v,
                        None => {
                            return Err(
                                AnalyzerError::FileError(
                                    String::from_str("an increment lies outside the source"),
                                ),
                            );
                        },
                    };
                    let mut message = String::from_str(
                        "Refactor this function to reduce its Cognitive Complexity from ",
                    );
                    message.append(dec_string(total as usize).as_str());
                    message.append(" to the ");
                    message.append(i32_string(self.threshold).as_str());
                    message.append(" allowed.");
                    let location = crate::location::node_sonar_location(tree, name, source_bytes);
                    let issue = Issue {
                        rule_key: String::from_str("S3776"),
                        message,
                        location,
                        secondary_locations,
                    };
                    proof {
                        assert(issue@.secondary_locations =~= spec_secondaries(
                            spec_fn_incs(nodes, parents, i as int),
                            src,
                        ));
                        assert(issue@ =~~= SpecIssue {
                            rule_key: "S3776"@,
                            message: spec_refactor_message(
                                spec_total_of(spec_fn_incs(nodes, parents, i as int)),
                                thr,
                            ),
                            location: spec_node_sonar(
                                nodes,
                                spec_child_by_field(nodes, i as int, FieldName::Name).unwrap() as int,
                                src,
                            ),
                            secondary_locations: spec_secondaries(
                                spec_fn_incs(nodes, parents, i as int),
                                src,
                            ),
                        });
                    }
                    out.push(issue);
                }
            }
            proof {
                assert(rest_i =~= (if spec_is_outer_fn(nodes, parents, i as int)
                    && spec_fn_rule_ok(nodes, parents, src, thr, i as int) && spec_total_of(
                    spec_fn_incs(nodes, parents, i as int),
                ) > thr {
                    seq![
                        SpecIssue {
                            rule_key: "S3776"@,
                            message: spec_refactor_message(
                                spec_total_of(spec_fn_incs(nodes, parents, i as int)),
                                thr,
                            ),
                            location: spec_node_sonar(
                                nodes,
                                spec_child_by_field(
                                    nodes,
                                    i as int,
                                    FieldName::Name,
                                ).unwrap() as int,
                                src,
                            ),
                            secondary_locations: spec_secondaries(
                                spec_fn_incs(nodes, parents, i as int),
                                src,
                            ),
                        },
                    ]
                } else {
                    Seq::<SpecIssue>::empty()
                }) + rest_i1);
                assert(full =~= full.take(full.len() - rest_i1.len()) + rest_i1);
                assert(issue_views(out@) =~~= full.take(full.len() - rest_i1.len()));
            }
            i = i + 1;
        }
        proof {
            assert(spec_s3776_issues(nodes, parents, src, thr, n as int)
                =~= Seq::<SpecIssue>::empty());
            assert(issue_views(out@) =~~= full);
        }
        Ok(out)
    }
}

} // verus!
