//! The parsing-error rule: one issue per error or missing node that the
//! parser recovered.
use vstd::prelude::*;

verus! {

use crate::issue::{Issue, SpecIssue, SpecSecondary, issue_views};
use crate::location::spec_node_sonar;
use crate::tree::{AnalyzerError, NodeData, SyntaxTree, wf_node};
use crate::visitors::syntax_error::{missing_message, spec_error_message, spec_missing_message};
use vstd::string::{StrSliceExecFns, StringExecFns, StringSliceAdditionalSpecFns};

/// The position of `child` in the child list of `p`, scanning from `k`.
pub open spec fn spec_child_pos(nodes: Seq<NodeData>, p: int, child: usize, k: int) -> Option<int>
    decreases nodes[p].children@.len() - k,
{
    if k < 0 || k >= nodes[p].children@.len() {
        None
    } else if nodes[p].children@[k] == child {
        Some(k)
    } else {
        spec_child_pos(nodes, p, child, k + 1)
    }
}

/// The nearest ancestor of `j` that is itself neither an error nor a
/// missing node.
pub open spec fn spec_valid_ancestor(
    nodes: Seq<NodeData>,
    parents: Seq<Option<usize>>,
    j: int,
) -> Option<usize>
    decreases nodes.len() - j,
{
    match parents[j] {
        Some(p) => {
            if j < p < nodes.len() {
                if !nodes[p as int].error && !nodes[p as int].missing {
                    Some(p)
                } else {
                    spec_valid_ancestor(nodes, parents, p as int)
                }
            } else {
                None
            }
        },
        None => None,
    }
}

/// The immediate previous sibling of `i`, if it has one.
pub open spec fn spec_prev_sibling(
    nodes: Seq<NodeData>,
    parents: Seq<Option<usize>>,
    i: int,
) -> Option<usize> {
    match parents[i] {
        Some(p) => {
            if p < nodes.len() {
                match spec_child_pos(nodes, p as int, i as usize, 0) {
                    Some(k) => {
                        if k > 0 {
                            Some(nodes[p as int].children@[k - 1])
                        } else {
                            None
                        }
                    },
                    None => None,
                }
            } else {
                None
            }
        },
        None => None,
    }
}

/// The node whose span stands in for a missing node: the immediate previous
/// sibling when it is itself neither an error nor missing, else the nearest
/// such ancestor; `None` when no such node exists.
pub open spec fn spec_sibling_or_parent(
    nodes: Seq<NodeData>,
    parents: Seq<Option<usize>>,
    i: int,
) -> Option<usize> {
    match spec_prev_sibling(nodes, parents, i) {
        Some(prev) => {
            if (prev as int) < nodes.len() && !nodes[prev as int].error
                && !nodes[prev as int].missing {
                Some(prev)
            } else {
                spec_valid_ancestor(nodes, parents, i)
            }
        },
        None => spec_valid_ancestor(nodes, parents, i),
    }
}

/// Finds the sibling-or-ancestor stand-in span for a missing node.
#[verifier::loop_isolation(false)]
fn sibling_or_parent(tree: &SyntaxTree, i: usize) -> (r: Option<usize>)
    requires
        tree.wf(),
        i < tree.nodes@.len(),
    ensures
        r == spec_sibling_or_parent(tree.nodes@, tree.parents@, i as int),
        r matches Some(s) ==> s < tree.nodes@.len(),
{
    proof {
        assert(wf_node(tree.nodes@, tree.parents@, tree.src_len, tree.n_lines, i as int));
    }
    let prev_ok: Option<usize> = match tree.parents[i] {
        Some(p) => {
            proof {
                assert(wf_node(tree.nodes@, tree.parents@, tree.src_len, tree.n_lines, p as int));
            }
            let m = tree.nodes[p].children.len();
            let mut k: usize = 0;
            let mut found: Option<usize> = None;
            while k < m
                invariant
                    k <= m,
                    found is None,
                    spec_child_pos(tree.nodes@, p as int, i as usize, 0) == spec_child_pos(
                        tree.nodes@,
                        p as int,
                        i as usize,
                        k as int,
                    ),
                decreases m - k,
            {
                if tree.nodes[p].children[k] == i {
                    if k > 0 {
                        let prev = tree.nodes[p].children[k - 1];
                        if !tree.nodes[prev].error && !tree.nodes[prev].missing {
                            found = Some(prev);
                        }
                    }
                    break ;
                }
                k = k + 1;
            }
            found
        },
        None => None,
    };
    match prev_ok {
        Some(prev) => Some(prev),
        None => {
            // climb to the nearest ancestor that is neither error nor missing
            let mut j: usize = i;
            loop
                invariant
                    i <= j < tree.nodes@.len(),
                    spec_sibling_or_parent(tree.nodes@, tree.parents@, i as int)
                        == spec_valid_ancestor(tree.nodes@, tree.parents@, j as int),
                decreases tree.nodes@.len() - j,
            {
                proof {
                    assert(wf_node(tree.nodes@, tree.parents@, tree.src_len, tree.n_lines, j as int));
                }
                match tree.parents[j] {
                    Some(p) => {
                        if !tree.nodes[p].error && !tree.nodes[p].missing {
                            return Some(p);
                        }
                        j = p;
                    },
                    None => { return None },
                }
            }
        },
    }
}

/// Whether the walk of the subtree rooted at `i` hits no missing node
/// without a stand-in span.
pub open spec fn spec_s2260_ok(nodes: Seq<NodeData>, parents: Seq<Option<usize>>, i: int) -> bool
    decreases i, nodes[i].children@.len() + 1,
{
    &&& (nodes[i].missing ==> spec_sibling_or_parent(nodes, parents, i) is Some)
    &&& (nodes[i].extra || spec_s2260_ok_children(nodes, parents, i, nodes[i].children@.len() as int))
}

pub open spec fn spec_s2260_ok_children(
    nodes: Seq<NodeData>,
    parents: Seq<Option<usize>>,
    i: int,
    k: int,
) -> bool
    decreases i, k,
{
    if k <= 0 {
        true
    } else {
        spec_s2260_ok_children(nodes, parents, i, k - 1) && {
            let c = nodes[i].children@[k - 1] as int;
            !(0 <= c < i) || spec_s2260_ok(nodes, parents, c)
        }
    }
}

/// The issues of the rule over the subtree rooted at `i`, in the order the
/// walk leaves the nodes.
pub open spec fn spec_s2260_issues(
    nodes: Seq<NodeData>,
    parents: Seq<Option<usize>>,
    src: Seq<u8>,
    i: int,
) -> Seq<SpecIssue>
    decreases i, nodes[i].children@.len() + 1,
{
    let own_error: Seq<SpecIssue> = if nodes[i].error {
        seq![
            SpecIssue {
                rule_key: "S2260"@,
                message: spec_error_message(),
                location: spec_node_sonar(nodes, i, src),
                secondary_locations: Seq::empty(),
            },
        ]
    } else {
        Seq::empty()
    };
    let own_missing: Seq<SpecIssue> = if nodes[i].missing {
        match spec_sibling_or_parent(nodes, parents, i) {
            Some(s) => seq![
                SpecIssue {
                    rule_key: "S2260"@,
                    message: match nodes[i].sexp {
                        Some(sx) => spec_missing_message(sx@),
                        None => spec_missing_message(Seq::empty()),
                    },
                    location: spec_node_sonar(nodes, s as int, src),
                    secondary_locations: Seq::empty(),
                },
            ],
            None => Seq::empty(),
        }
    } else {
        Seq::empty()
    };
    (if nodes[i].extra {
        Seq::empty()
    } else {
        spec_s2260_issues_children(nodes, parents, src, i, nodes[i].children@.len() as int)
    }) + own_error + own_missing
}

pub open spec fn spec_s2260_issues_children(
    nodes: Seq<NodeData>,
    parents: Seq<Option<usize>>,
    src: Seq<u8>,
    i: int,
    k: int,
) -> Seq<SpecIssue>
    decreases i, k,
{
    if k <= 0 {
        Seq::empty()
    } else {
        spec_s2260_issues_children(nodes, parents, src, i, k - 1) + {
            let c = nodes[i].children@[k - 1] as int;
            if 0 <= c < i {
                spec_s2260_issues(nodes, parents, src, c)
            } else {
                Seq::empty()
            }
        }
    }
}

/// Walks the subtree rooted at `i` and appends the rule's issues.
#[verifier::loop_isolation(false)]
#[verifier::rlimit(100)]
fn pe_visit(tree: &SyntaxTree, src: &[u8], i: usize, out: &mut Vec<Issue>) -> (r: Result<
    (),
    AnalyzerError,
>)
    requires
        tree.wf(),
        i < tree.nodes@.len(),
        src@.len() == tree.src_len,
    ensures
        r is Ok <==> spec_s2260_ok(tree.nodes@, tree.parents@, i as int),
        r is Ok ==> issue_views(final (out)@) == issue_views(old(out)@) + spec_s2260_issues(
            tree.nodes@,
            tree.parents@,
            src@,
            i as int,
        ),
        r matches Err(e) ==> e matches AnalyzerError::FileError(m) && m@
            == "a missing node must have a valid sibling or ancestor"@,
    decreases i,
{
    let ghost nodes = tree.nodes@;
    let ghost parents = tree.parents@;
    proof {
        assert(wf_node(nodes, parents, tree.src_len, tree.n_lines, i as int));
    }
    let ghost kids = if nodes[i as int].extra {
        Seq::<SpecIssue>::empty()
    } else {
        spec_s2260_issues_children(nodes, parents, src@, i as int, nodes[i as int].children@.len() as int)
    };
    if !tree.nodes[i].extra {
        let m = tree.nodes[i].children.len();
        let mut k: usize = 0;
        proof {
            assert(issue_views(out@) =~~= issue_views(old(out)@) + spec_s2260_issues_children(
                nodes,
                parents,
                src@,
                i as int,
                0,
            ));
        }
        while k < m
            invariant
                k <= m,
                spec_s2260_ok_children(nodes, parents, i as int, k as int),
                issue_views(out@) == issue_views(old(out)@) + spec_s2260_issues_children(
                    nodes,
                    parents,
                    src@,
                    i as int,
                    k as int,
                ),
            decreases m - k,
        {
            let c = tree.nodes[i].children[k];
            match pe_visit(tree, src, c, out) {
                Ok(()) => {},
                Err(e) => {
                    proof {
                        if spec_s2260_ok(nodes, parents, i as int) {
                            crate::rules::rule::lemma_s2260_ok_children_prefix(
                                nodes,
                                parents,
                                i as int,
                                k + 1,
                                m as int,
                            );
                        }
                    }
                    return Err(e);
                },
            }
            proof {
                assert(issue_views(out@) =~~= issue_views(old(out)@) + spec_s2260_issues_children(
                    nodes,
                    parents,
                    src@,
                    i as int,
                    k + 1,
                ));
            }
            k = k + 1;
        }
    }
    proof {
        assert(issue_views(out@) =~~= issue_views(old(out)@) + kids);
    }
    let ghost err_seq: Seq<SpecIssue> = if nodes[i as int].error {
        seq![
            SpecIssue {
                rule_key: "S2260"@,
                message: spec_error_message(),
                location: spec_node_sonar(nodes, i as int, src@),
                secondary_locations: Seq::empty(),
            },
        ]
    } else {
        Seq::empty()
    };
    if tree.nodes[i].error {
        let message = String::from_str("A syntax error occurred during parsing.");
        let location = crate::location::node_sonar_location(tree, i, src);
        out.push(
            Issue {
                rule_key: String::from_str("S2260"),
                message,
                location,
                secondary_locations: Vec::new(),
            },
        );
    }
    proof {
        assert(issue_views(out@) =~~= issue_views(old(out)@) + kids + err_seq);
    }
    let ghost missing_seq: Seq<SpecIssue> = if nodes[i as int].missing {
        match spec_sibling_or_parent(nodes, parents, i as int) {
            Some(sp) => seq![
                SpecIssue {
                    rule_key: "S2260"@,
                    message: match nodes[i as int].sexp {
                        Some(sx) => spec_missing_message(sx@),
                        None => spec_missing_message(Seq::empty()),
                    },
                    location: spec_node_sonar(nodes, sp as int, src@),
                    secondary_locations: Seq::empty(),
                },
            ],
            None => Seq::empty(),
        }
    } else {
        Seq::empty()
    };
    if tree.nodes[i].missing {
        let stand_in = match sibling_or_parent(tree, i) {
            Some(s) => s,
            None => {
                return Err(
                    AnalyzerError::FileError(
                        String::from_str("a missing node must have a valid sibling or ancestor"),
                    ),
                );
            },
        };
        let message = match &tree.nodes[i].sexp {
            Some(s) => missing_message(s),
            None => {
                let empty = String::new();
                missing_message(&empty)
            },
        };
        let location = crate::location::node_sonar_location(tree, stand_in, src);
        out.push(
            Issue {
                rule_key: String::from_str("S2260"),
                message,
                location,
                secondary_locations: Vec::new(),
            },
        );
    }
    proof {
        assert(issue_views(out@) =~~= issue_views(old(out)@) + kids + err_seq + missing_seq);
        assert(spec_s2260_issues(nodes, parents, src@, i as int) =~~= kids + err_seq
            + missing_seq);
        assert(issue_views(out@) =~~= issue_views(old(out)@) + spec_s2260_issues(
            nodes,
            parents,
            src@,
            i as int,
        ));
    }
    Ok(())
}

/// The parsing-error rule.
pub struct ParsingErrorCheck;

impl ParsingErrorCheck {
    /// Builds the rule; it has no configuration.
    pub fn new() -> (r: Self) {
        ParsingErrorCheck
    }

    /// Reports one issue per error node (a generic message on the node's
    /// span) and per missing node (a derived message on the span of the
    /// previous sibling if it is valid, else of the nearest ancestor that is
    /// neither error nor missing), in the order the walk leaves the nodes.
    /// Fails when a missing node has no such stand-in at all.
    pub fn check(&self, tree: &SyntaxTree, source_code: &str) -> (r: Result<
        Vec<Issue>,
        AnalyzerError,
    >)
        requires
            tree.wf(),
            source_code.spec_bytes().len() == tree.src_len,
        ensures
            r is Ok <==> spec_s2260_ok(tree.nodes@, tree.parents@, tree.spec_root()),
            r matches Ok(v) ==> issue_views(v@) == spec_s2260_issues(
                tree.nodes@,
                tree.parents@,
                source_code.spec_bytes(),
                tree.spec_root(),
            ),
            r matches Err(e) ==> e matches AnalyzerError::FileError(m) && m@
                == "a missing node must have a valid sibling or ancestor"@,
    {
        let src = source_code.as_bytes();
        let mut out: Vec<Issue> = Vec::new();
        let root = tree.root();
        proof {
            assert(issue_views(out@) =~~= Seq::<SpecIssue>::empty());
        }
        match pe_visit(tree, src, root, &mut out) {
            Ok(()) => {
                proof {
                    assert(issue_views(out@) =~~= spec_s2260_issues(
                        tree.nodes@,
                        tree.parents@,
                        source_code.spec_bytes(),
                        tree.spec_root(),
                    ));
                }
                Ok(out)
            },
            Err(e) => Err(e),
        }
    }
}

} // verus!
