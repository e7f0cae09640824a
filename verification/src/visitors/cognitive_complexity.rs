//! Cognitive complexity.
//!
//! The analyzer walks a function-scoped region and emits one increment per
//! costly construct, each carrying the nesting level it was found at. The
//! total complexity is the sum of `nesting + 1` over the increments.
//!
//! The increments are specified by [`spec_cc_node`], a recursion over the
//! tree that mirrors the published cognitive-complexity rules: control-flow
//! constructs pay one plus nesting, `else` branches pay one, labelled jumps
//! pay one, chains of logical operators pay one per run of equal operators,
//! nested functions and closures deepen the nesting.
use vstd::prelude::*;

verus! {

use crate::location::{TreeSitterLocation, spec_node_location};
use crate::tree::{
    AnalyzerError,
    FieldName,
    NodeData,
    NodeKind,
    SyntaxTree,
    child_by_field,
    first_named_child,
    spec_child_by_field,
    spec_first_named_child,
    spec_size,
    spec_size_children,
    wf_node,
};
use crate::visitors::walk::spec_is_logical_operator;
use crate::tree::MAX_NODES;
use vstd::string::StringExecFns;

/// One emitted increment: where it was found, and the nesting level there.
/// It contributes `nesting + 1` to the total complexity.
pub struct Increment {
    pub location: TreeSitterLocation,
    pub nesting: usize,
}

/// The messages with which the walk reports a structural violation.
pub open spec fn spec_cc_walk_error_message(m: Seq<char>) -> bool {
    ||| m == "an if expression must have an 'if' keyword child"@
    ||| m == "an else clause must have an 'else' keyword child"@
    ||| m == "a while/loop/for/match must have their respective keywords as a child"@
    ||| m == "operator must be present in a binary expression"@
}

/// Whether node `i` is the `if` of an `else if` chain: its parent is an
/// else-clause whose first named child is this node.
pub open spec fn spec_is_else_if(nodes: Seq<NodeData>, parents: Seq<Option<usize>>, i: int) -> bool {
    parents[i] matches Some(p) && p < nodes.len() && nodes[p as int].kind == NodeKind::ElseClause
        && spec_first_named_child(nodes, p as int) == Some(i as usize)
}

/// Whether node `i` is flattened as part of its parent's operator chain: the
/// parent is itself a logical operator and reaches `i` through its `left` or
/// `right` field.
pub open spec fn spec_in_parent_chain(
    nodes: Seq<NodeData>,
    parents: Seq<Option<usize>>,
    i: int,
) -> bool {
    parents[i] matches Some(p) && p < nodes.len() && spec_is_logical_operator(nodes, p as int) && (
    spec_child_by_field(nodes, p as int, FieldName::Left) == Some(i as usize)
        || spec_child_by_field(nodes, p as int, FieldName::Right) == Some(i as usize))
}

/// Whether node `i` roots a maximal chain of logical operators.
pub open spec fn spec_is_chain_root(
    nodes: Seq<NodeData>,
    parents: Seq<Option<usize>>,
    i: int,
) -> bool {
    spec_is_logical_operator(nodes, i) && !spec_in_parent_chain(nodes, parents, i)
}

/// Whether every logical operator of the chain rooted at `i` has an
/// `operator` child.
pub open spec fn spec_chain_ok(nodes: Seq<NodeData>, i: int) -> bool
    decreases i,
{
    &&& spec_child_by_field(nodes, i, FieldName::Operator) is Some
    &&& match spec_child_by_field(nodes, i, FieldName::Left) {
        Some(l) => !(0 <= l < i && spec_is_logical_operator(nodes, l as int)) || spec_chain_ok(
            nodes,
            l as int,
        ),
        None => true,
    }
    &&& match spec_child_by_field(nodes, i, FieldName::Right) {
        Some(r) => !(0 <= r < i && spec_is_logical_operator(nodes, r as int)) || spec_chain_ok(
            nodes,
            r as int,
        ),
        None => true,
    }
}

/// The operator tokens of the maximal logical chain rooted at `i`, in source
/// order: the left subchain, the own operator, the right subchain.
pub open spec fn spec_flat_ops(nodes: Seq<NodeData>, i: int) -> Seq<usize>
    decreases i,
{
    let left = match spec_child_by_field(nodes, i, FieldName::Left) {
        Some(l) => {
            if 0 <= l < i && spec_is_logical_operator(nodes, l as int) {
                spec_flat_ops(nodes, l as int)
            } else {
                Seq::empty()
            }
        },
        None => Seq::empty(),
    };
    let own: Seq<usize> = match spec_child_by_field(nodes, i, FieldName::Operator) {
        Some(op) => seq![op],
        None => Seq::empty(),
    };
    let right = match spec_child_by_field(nodes, i, FieldName::Right) {
        Some(r) => {
            if 0 <= r < i && spec_is_logical_operator(nodes, r as int) {
                spec_flat_ops(nodes, r as int)
            } else {
                Seq::empty()
            }
        },
        None => Seq::empty(),
    };
    left + own + right
}

/// The increments of an operator chain: the operators are taken in reverse
/// source order, and one nesting-0 increment is emitted whenever an
/// operator's kind differs from the one taken before it (the first taken
/// always counts). `t` walks the reversed sequence.
pub open spec fn spec_chain_incs(nodes: Seq<NodeData>, rops: Seq<usize>, t: int) -> Seq<(int, int)>
    decreases rops.len() - t,
{
    if t < 0 || t >= rops.len() {
        Seq::empty()
    } else {
        let emit = t == 0 || nodes[rops[t] as int].kind != nodes[rops[t - 1] as int].kind;
        (if emit {
            seq![(rops[t] as int, 0int)]
        } else {
            Seq::empty()
        }) + spec_chain_incs(nodes, rops, t + 1)
    }
}

/// Whether the walk of the subtree rooted at `i` reports no structural
/// violation: every `if`, loop and match construct has its keyword child,
/// every else-clause its `else` child, every logical operator its operator
/// child.
pub open spec fn spec_cc_ok(nodes: Seq<NodeData>, parents: Seq<Option<usize>>, i: int) -> bool
    decreases i, nodes[i].children@.len() + 1,
{
    let enter_ok = if nodes[i].kind == NodeKind::IfExpression {
        &&& (spec_is_else_if(nodes, parents, i) || nodes[i].children@.len() > 0)
        &&& (match spec_child_by_field(nodes, i, FieldName::Alternative) {
            Some(alt) => 0 <= (alt as int) < i && nodes[alt as int].children@.len() > 0,
            None => true,
        })
    } else if nodes[i].kind == NodeKind::WhileExpression || nodes[i].kind
        == NodeKind::LoopExpression || nodes[i].kind == NodeKind::ForExpression || nodes[i].kind
        == NodeKind::MatchExpression {
        nodes[i].children@.len() > 0
    } else if spec_is_chain_root(nodes, parents, i) {
        spec_chain_ok(nodes, i)
    } else {
        true
    };
    enter_ok && (nodes[i].extra || spec_cc_ok_children(nodes, parents, i, nodes[i].children@.len() as int))
}

pub open spec fn spec_cc_ok_children(
    nodes: Seq<NodeData>,
    parents: Seq<Option<usize>>,
    i: int,
    k: int,
) -> bool
    decreases i, k,
{
    if k <= 0 {
        true
    } else {
        spec_cc_ok_children(nodes, parents, i, k - 1) && {
            let c = nodes[i].children@[k - 1] as int;
            !(0 <= c < i) || spec_cc_ok(nodes, parents, c)
        }
    }
}

/// The increments the walk emits at node `i` itself, before its children.
pub open spec fn spec_cc_enter(
    nodes: Seq<NodeData>,
    parents: Seq<Option<usize>>,
    i: int,
    nesting: int,
) -> Seq<(int, int)>
    decreases i,
{
    if nodes[i].kind == NodeKind::IfExpression {
        let first = if !spec_is_else_if(nodes, parents, i) && nodes[i].children@.len() > 0 {
            seq![(nodes[i].children@[0] as int, nesting)]
        } else {
            Seq::empty()
        };
        let second: Seq<(int, int)> = match spec_child_by_field(
            nodes,
            i,
            FieldName::Alternative,
        ) {
            Some(alt) => {
                if 0 <= (alt as int) < i && nodes[alt as int].children@.len() > 0 {
                    seq![(nodes[alt as int].children@[0] as int, 0int)]
                } else {
                    Seq::empty()
                }
            },
            None => Seq::empty(),
        };
        first + second
    } else if nodes[i].kind == NodeKind::WhileExpression || nodes[i].kind
        == NodeKind::LoopExpression || nodes[i].kind == NodeKind::ForExpression || nodes[i].kind
        == NodeKind::MatchExpression {
        if nodes[i].children@.len() > 0 {
            seq![(nodes[i].children@[0] as int, nesting)]
        } else {
            Seq::empty()
        }
    } else if nodes[i].kind == NodeKind::Label {
        match parents[i] {
            Some(p) => {
                if p < nodes.len() && (nodes[p as int].kind == NodeKind::BreakExpression
                    || nodes[p as int].kind == NodeKind::ContinueExpression) {
                    seq![(p as int, 0int)]
                } else {
                    Seq::empty()
                }
            },
            None => Seq::empty(),
        }
    } else if spec_is_chain_root(nodes, parents, i) {
        spec_chain_incs(nodes, spec_flat_ops(nodes, i).reverse(), 0)
    } else {
        Seq::empty()
    }
}

/// The nesting level the children of node `i` are walked at.
pub open spec fn spec_cc_child_nesting(
    nodes: Seq<NodeData>,
    parents: Seq<Option<usize>>,
    i: int,
    nesting: int,
    enclosing: int,
) -> int {
    if nodes[i].kind == NodeKind::FunctionItem {
        if enclosing > 0 {
            nesting + 1
        } else {
            0
        }
    } else if nodes[i].kind == NodeKind::IfExpression {
        if !spec_is_else_if(nodes, parents, i) {
            nesting + 1
        } else {
            nesting
        }
    } else if nodes[i].kind == NodeKind::WhileExpression || nodes[i].kind
        == NodeKind::LoopExpression || nodes[i].kind == NodeKind::ForExpression || nodes[i].kind
        == NodeKind::MatchExpression || nodes[i].kind == NodeKind::ClosureExpression {
        nesting + 1
    } else {
        nesting
    }
}

/// The enclosing-function count the children of node `i` are walked at.
pub open spec fn spec_cc_child_enclosing(nodes: Seq<NodeData>, i: int, enclosing: int) -> int {
    if nodes[i].kind == NodeKind::FunctionItem {
        enclosing + 1
    } else {
        enclosing
    }
}

/// The increments of the walk of the subtree rooted at `i`, entered with the
/// given nesting level and enclosing-function count.
pub open spec fn spec_cc_node(
    nodes: Seq<NodeData>,
    parents: Seq<Option<usize>>,
    i: int,
    nesting: int,
    enclosing: int,
) -> Seq<(int, int)>
    decreases i, nodes[i].children@.len() + 1,
{
    spec_cc_enter(nodes, parents, i, nesting) + if nodes[i].extra {
        Seq::empty()
    } else {
        spec_cc_children(
            nodes,
            parents,
            i,
            nodes[i].children@.len() as int,
            spec_cc_child_nesting(nodes, parents, i, nesting, enclosing),
            spec_cc_child_enclosing(nodes, i, enclosing),
        )
    }
}

pub open spec fn spec_cc_children(
    nodes: Seq<NodeData>,
    parents: Seq<Option<usize>>,
    i: int,
    k: int,
    nesting: int,
    enclosing: int,
) -> Seq<(int, int)>
    decreases i, k,
{
    if k <= 0 {
        Seq::empty()
    } else {
        spec_cc_children(nodes, parents, i, k - 1, nesting, enclosing) + {
            let c = nodes[i].children@[k - 1] as int;
            if 0 <= c < i {
                spec_cc_node(nodes, parents, c, nesting, enclosing)
            } else {
                Seq::empty()
            }
        }
    }
}

/// The increments as the caller receives them.
pub open spec fn spec_map_incs(nodes: Seq<NodeData>, s: Seq<(int, int)>) -> Seq<Increment> {
    Seq::new(
        s.len(),
        |j: int|
            Increment {
                location: spec_node_location(nodes, s[j].0),
                nesting: s[j].1 as usize,
            },
    )
}

/// The total complexity of a sequence of increments: each contributes its
/// nesting level plus one.
pub open spec fn spec_incs_total(s: Seq<(int, int)>) -> int
    decreases s.len(),
{
    if s.len() == 0 {
        0
    } else {
        spec_incs_total(s.drop_last()) + s.last().1 + 1
    }
}

/// Mapping increments distributes over concatenation.
pub proof fn lemma_map_incs_concat(nodes: Seq<NodeData>, a: Seq<(int, int)>, b: Seq<(int, int)>)
    ensures
        spec_map_incs(nodes, a + b) == spec_map_incs(nodes, a) + spec_map_incs(nodes, b),
{
    assert(spec_map_incs(nodes, a + b) =~= spec_map_incs(nodes, a) + spec_map_incs(nodes, b));
}

/// Decides whether node `i` is the `if` of an `else if` chain.
pub fn is_else_if(tree: &SyntaxTree, i: usize) -> (r: bool)
    requires
        tree.wf(),
        i < tree.nodes@.len(),
    ensures
        r == spec_is_else_if(tree.nodes@, tree.parents@, i as int),
{
    proof {
        assert(wf_node(tree.nodes@, tree.parents@, tree.src_len, tree.n_lines, i as int));
    }
    match tree.parents[i] {
        None => false,
        Some(p) => {
            if tree.nodes[p].kind != NodeKind::ElseClause {
                return false;
            }
            match first_named_child(tree, p) {
                Some(c) => c == i,
                None => false,
            }
        },
    }
}

/// Decides whether node `i` is flattened as part of its parent's chain.
fn in_parent_chain(tree: &SyntaxTree, i: usize) -> (r: bool)
    requires
        tree.wf(),
        i < tree.nodes@.len(),
    ensures
        r == spec_in_parent_chain(tree.nodes@, tree.parents@, i as int),
{
    proof {
        assert(wf_node(tree.nodes@, tree.parents@, tree.src_len, tree.n_lines, i as int));
    }
    match tree.parents[i] {
        None => false,
        Some(p) => {
            if !crate::visitors::walk::is_logical_operator_at(tree, p) {
                return false;
            }
            let is_left = match child_by_field(tree, p, FieldName::Left) {
                Some(l) => l == i,
                None => false,
            };
            let is_right = match child_by_field(tree, p, FieldName::Right) {
                Some(rr) => rr == i,
                None => false,
            };
            is_left || is_right
        },
    }
}

/// Collects the operator tokens of the maximal chain of logical operators
/// rooted at `node`, in source order.
pub(crate) fn flatten_operators(tree: &SyntaxTree, node: usize) -> (r: Result<
    Vec<usize>,
    AnalyzerError,
>)
    requires
        tree.wf(),
        node < tree.nodes@.len(),
    ensures
        r is Ok <==> spec_chain_ok(tree.nodes@, node as int),
        r matches Ok(v) ==> v@ == spec_flat_ops(tree.nodes@, node as int),
        r matches Err(e) ==> e matches AnalyzerError::FileError(m) && m@
            == "operator must be present in a binary expression"@,
    decreases node,
{
    let mut ops: Vec<usize> = Vec::new();
    proof {
        assert(ops@ =~= Seq::<usize>::empty());
    }
    if let Some(l) = child_by_field(tree, node, FieldName::Left) {
        if crate::visitors::walk::is_logical_operator_at(tree, l) {
            let mut sub = match flatten_operators(tree, l) {
                Ok(s) => s,
                Err(e) => { return Err(e) },
            };
            ops.append(&mut sub);
        }
    }
    match child_by_field(tree, node, FieldName::Operator) {
        Some(op) => {
            ops.push(op);
        },
        None => {
            return Err(
                AnalyzerError::FileError(
                    String::from_str("operator must be present in a binary expression"),
                ),
            );
        },
    }
    if let Some(rr) = child_by_field(tree, node, FieldName::Right) {
        if crate::visitors::walk::is_logical_operator_at(tree, rr) {
            let mut sub = match flatten_operators(tree, rr) {
                Ok(s) => s,
                Err(e) => { return Err(e) },
            };
            ops.append(&mut sub);
        }
    }
    proof {
        assert(ops@ =~= spec_flat_ops(tree.nodes@, node as int));
    }
    Ok(ops)
}

/// Emits the increments of an operator chain: the collected operators are
/// taken in reverse order, and a nesting-0 increment is pushed whenever the
/// operator kind changes.
#[verifier::loop_isolation(false)]
fn push_chain_incs(tree: &SyntaxTree, ops: &Vec<usize>, incs: &mut Vec<Increment>)
    requires
        tree.wf(),
        forall|j: int| 0 <= j < ops@.len() ==> (#[trigger] ops@[j]) < tree.nodes@.len(),
    ensures
        final (incs)@ == old(incs)@ + spec_map_incs(
            tree.nodes@,
            spec_chain_incs(tree.nodes@, ops@.reverse(), 0),
        ),
{
    let ghost rops = ops@.reverse();
    let n = ops.len();
    let mut t: usize = 0;
    proof {
        assert(incs@ =~= old(incs)@ + spec_map_incs(
            tree.nodes@,
            spec_chain_incs(tree.nodes@, rops, 0).take(0),
        ));
    }
    while t < n
        invariant
            t <= n,
            n == ops@.len(),
            incs@ == old(incs)@ + spec_map_incs(
                tree.nodes@,
                spec_chain_incs(tree.nodes@, rops, 0),
            ).take(spec_chain_incs(tree.nodes@, rops, 0).len() - spec_chain_incs(
                tree.nodes@,
                rops,
                t as int,
            ).len()),
            spec_chain_incs(tree.nodes@, rops, 0) == spec_chain_incs(
                tree.nodes@,
                rops,
                0,
            ).take(spec_chain_incs(tree.nodes@, rops, 0).len() - spec_chain_incs(
                tree.nodes@,
                rops,
                t as int,
            ).len()) + spec_chain_incs(tree.nodes@, rops, t as int),
        decreases n - t,
    {
        let op = ops[n - 1 - t];
        proof {
            assert(rops[t as int] == ops@[n - 1 - t as int]);
        }
        let emit: bool = if t == 0 {
            true
        } else {
            let prev = ops[n - t];
            proof {
                assert(rops[t - 1] == ops@[n - t as int]);
            }
            tree.nodes[op].kind != tree.nodes[prev].kind
        };
        proof {
            assert(spec_chain_incs(tree.nodes@, rops, t as int) == (if (t == 0 || tree.nodes@[
                rops[t as int] as int
            ].kind != tree.nodes@[rops[t - 1] as int].kind) {
                seq![(rops[t as int] as int, 0int)]
            } else {
                Seq::<(int, int)>::empty()
            }) + spec_chain_incs(tree.nodes@, rops, t + 1));
        }
        if emit {
            let location = TreeSitterLocation::from_tree_sitter_node(tree, op);
            incs.push(Increment { location, nesting: 0 });
        }
        proof {
            let full = spec_chain_incs(tree.nodes@, rops, 0);
            let done_now = full.len() - spec_chain_incs(tree.nodes@, rops, t + 1).len();
            assert(incs@ =~= old(incs)@ + spec_map_incs(tree.nodes@, full).take(done_now));
            assert(full =~= full.take(done_now) + spec_chain_incs(tree.nodes@, rops, t + 1));
        }
        t = t + 1;
    }
    proof {
        let full = spec_chain_incs(tree.nodes@, rops, 0);
        assert(spec_chain_incs(tree.nodes@, rops, n as int) =~= Seq::<(int, int)>::empty());
        assert(incs@ =~= old(incs)@ + spec_map_incs(tree.nodes@, full));
    }
}

/// The operators of a chain all lie below its root.
pub proof fn lemma_flat_ops_bounds(nodes: Seq<NodeData>, i: int)
    requires
        forall|a: int| 0 <= a < nodes.len() ==> #[trigger] crate::tree::wf_children_shape(nodes, a),
        0 <= i < nodes.len(),
    ensures
        forall|j: int|
            0 <= j < spec_flat_ops(nodes, i).len() ==> (#[trigger] spec_flat_ops(nodes, i)[j])
                < i,
    decreases i,
{
    crate::tree::lemma_child_by_field_bound(nodes, i, FieldName::Left, 0);
    crate::tree::lemma_child_by_field_bound(nodes, i, FieldName::Operator, 0);
    crate::tree::lemma_child_by_field_bound(nodes, i, FieldName::Right, 0);
    let left = match spec_child_by_field(nodes, i, FieldName::Left) {
        Some(l) => {
            if 0 <= l < i && spec_is_logical_operator(nodes, l as int) {
                lemma_flat_ops_bounds(nodes, l as int);
                spec_flat_ops(nodes, l as int)
            } else {
                Seq::empty()
            }
        },
        None => Seq::empty(),
    };
    let own: Seq<usize> = match spec_child_by_field(nodes, i, FieldName::Operator) {
        Some(op) => seq![op],
        None => Seq::empty(),
    };
    let right = match spec_child_by_field(nodes, i, FieldName::Right) {
        Some(r) => {
            if 0 <= r < i && spec_is_logical_operator(nodes, r as int) {
                lemma_flat_ops_bounds(nodes, r as int);
                spec_flat_ops(nodes, r as int)
            } else {
                Seq::empty()
            }
        },
        None => Seq::empty(),
    };
    assert(spec_flat_ops(nodes, i) == left + own + right);
    assert forall|j: int|
        0 <= j < spec_flat_ops(nodes, i).len() implies (#[trigger] spec_flat_ops(nodes, i)[j])
        < i by {
        if j < left.len() {
            assert(spec_flat_ops(nodes, i)[j] == left[j]);
        } else if j < left.len() + own.len() {
            assert(spec_flat_ops(nodes, i)[j] == own[j - left.len()]);
        } else {
            assert(spec_flat_ops(nodes, i)[j] == right[j - left.len() - own.len()]);
        }
    }
}

/// A walk that reports no violation up to child `m` reports none up to any
/// earlier child.
pub proof fn lemma_cc_ok_children_prefix(
    nodes: Seq<NodeData>,
    parents: Seq<Option<usize>>,
    i: int,
    k: int,
    m: int,
)
    requires
        0 <= k <= m,
        spec_cc_ok_children(nodes, parents, i, m),
    ensures
        spec_cc_ok_children(nodes, parents, i, k),
    decreases m,
{
    if k < m {
        lemma_cc_ok_children_prefix(nodes, parents, i, k, m - 1);
    }
}

/// Walks the subtree rooted at `i` and appends its increments.
#[verifier::loop_isolation(false)]
#[verifier::rlimit(100)]
fn cc_visit(
    tree: &SyntaxTree,
    i: usize,
    nesting: usize,
    enclosing: usize,
    incs: &mut Vec<Increment>,
) -> (r: Result<(), AnalyzerError>)
    requires
        tree.wf(),
        i < tree.nodes@.len(),
        nesting + spec_size(tree.nodes@, i as int) <= MAX_NODES,
        enclosing + spec_size(tree.nodes@, i as int) <= MAX_NODES,
    ensures
        r is Ok <==> spec_cc_ok(tree.nodes@, tree.parents@, i as int),
        r is Ok ==> final (incs)@ == old(incs)@ + spec_map_incs(
            tree.nodes@,
            spec_cc_node(
                tree.nodes@,
                tree.parents@,
                i as int,
                nesting as int,
                enclosing as int,
            ),
        ),
        r matches Err(e) ==> e matches AnalyzerError::FileError(m) && spec_cc_walk_error_message(
            m@,
        ),
    decreases i,
{
    let ghost nodes = tree.nodes@;
    let ghost parents = tree.parents@;
    proof {
        assert(wf_node(nodes, parents, tree.src_len, tree.n_lines, i as int));
        crate::tree::lemma_size_nonneg(nodes, i as int);
    }
    let kind = tree.nodes[i].kind;
    let chain_root = crate::visitors::walk::is_logical_operator_at(tree, i) && !in_parent_chain(
        tree,
        i,
    );
    if kind == NodeKind::IfExpression {
        if !is_else_if(tree, i) {
            if tree.nodes[i].children.len() == 0 {
                return Err(
                    AnalyzerError::FileError(
                        String::from_str("an if expression must have an 'if' keyword child"),
                    ),
                );
            }
            let c0 = tree.nodes[i].children[0];
            let location = TreeSitterLocation::from_tree_sitter_node(tree, c0);
            incs.push(Increment { location, nesting });
        }
        match child_by_field(tree, i, FieldName::Alternative) {
            Some(alt) => {
                if tree.nodes[alt].children.len() == 0 {
                    return Err(
                        AnalyzerError::FileError(
                            String::from_str("an else clause must have an 'else' keyword child"),
                        ),
                    );
                }
                let e0 = tree.nodes[alt].children[0];
                proof {
                    assert(wf_node(nodes, parents, tree.src_len, tree.n_lines, alt as int));
                }
                let location = TreeSitterLocation::from_tree_sitter_node(tree, e0);
                incs.push(Increment { location, nesting: 0 });
            },
            None => {},
        }
    } else if kind == NodeKind::WhileExpression || kind == NodeKind::LoopExpression || kind
        == NodeKind::ForExpression || kind == NodeKind::MatchExpression {
        if tree.nodes[i].children.len() == 0 {
            return Err(
                AnalyzerError::FileError(
                    String::from_str(
                        "a while/loop/for/match must have their respective keywords as a child",
                    ),
                ),
            );
        }
        let c0 = tree.nodes[i].children[0];
        let location = TreeSitterLocation::from_tree_sitter_node(tree, c0);
        incs.push(Increment { location, nesting });
    } else if kind == NodeKind::Label {
        match tree.parents[i] {
            Some(p) => {
                if tree.nodes[p].kind == NodeKind::BreakExpression || tree.nodes[p].kind
                    == NodeKind::ContinueExpression {
                    let location = TreeSitterLocation::from_tree_sitter_node(tree, p);
                    incs.push(Increment { location, nesting: 0 });
                }
            },
            None => {},
        }
    } else if chain_root {
        let ops = match flatten_operators(tree, i) {
            Ok(v) => v,
            Err(e) => { return Err(e) },
        };
        proof {
            assert forall|a: int|
                0 <= a < nodes.len() implies #[trigger] crate::tree::wf_children_shape(
                nodes,
                a,
            ) by {
                assert(wf_node(nodes, parents, tree.src_len, tree.n_lines, a));
            }
            lemma_flat_ops_bounds(nodes, i as int);
        }
        push_chain_incs(tree, &ops, incs);
    }
    proof {
        assert(incs@ =~= old(incs)@ + spec_map_incs(
            nodes,
            spec_cc_enter(nodes, parents, i as int, nesting as int),
        ));
    }
    let ghost enter_incs = spec_cc_enter(nodes, parents, i as int, nesting as int);
    let child_nesting: usize = if kind == NodeKind::FunctionItem {
        if enclosing > 0 {
            nesting + 1
        } else {
            0
        }
    } else if kind == NodeKind::IfExpression {
        if !is_else_if(tree, i) {
            nesting + 1
        } else {
            nesting
        }
    } else if kind == NodeKind::WhileExpression || kind == NodeKind::LoopExpression || kind
        == NodeKind::ForExpression || kind == NodeKind::MatchExpression || kind
        == NodeKind::ClosureExpression {
        nesting + 1
    } else {
        nesting
    };
    let child_enclosing: usize = if kind == NodeKind::FunctionItem {
        enclosing + 1
    } else {
        enclosing
    };
    if !tree.nodes[i].extra {
        let m = tree.nodes[i].children.len();
        let mut k: usize = 0;
        while k < m
            invariant
                k <= m,
                spec_cc_ok_children(nodes, parents, i as int, k as int),
                incs@ == old(incs)@ + spec_map_incs(
                    nodes,
                    enter_incs + spec_cc_children(
                        nodes,
                        parents,
                        i as int,
                        k as int,
                        child_nesting as int,
                        child_enclosing as int,
                    ),
                ),
            decreases m - k,
        {
            let c = tree.nodes[i].children[k];
            proof {
                crate::tree::lemma_size_children_mono(nodes, i as int, k + 1, m as int);
                crate::tree::lemma_size_children_nonneg(nodes, i as int, k as int);
                lemma_size_nonneg_child(nodes, i as int, k as int);
                assert(spec_size(nodes, c as int) + 1 <= spec_size(nodes, i as int));
            }
            let ghost incs_before = incs@;
            match cc_visit(tree, c, child_nesting, child_enclosing, incs) {
                Ok(()) => {},
                Err(e) => {
                    proof {
                        if spec_cc_ok(nodes, parents, i as int) {
                            lemma_cc_ok_children_prefix(nodes, parents, i as int, k + 1, m as int);
                        }
                    }
                    return Err(e);
                },
            }
            proof {
                lemma_map_incs_concat(
                    nodes,
                    enter_incs + spec_cc_children(
                        nodes,
                        parents,
                        i as int,
                        k as int,
                        child_nesting as int,
                        child_enclosing as int,
                    ),
                    spec_cc_node(
                        nodes,
                        parents,
                        c as int,
                        child_nesting as int,
                        child_enclosing as int,
                    ),
                );
                assert(enter_incs + spec_cc_children(
                    nodes,
                    parents,
                    i as int,
                    k + 1,
                    child_nesting as int,
                    child_enclosing as int,
                ) =~= (enter_incs + spec_cc_children(
                    nodes,
                    parents,
                    i as int,
                    k as int,
                    child_nesting as int,
                    child_enclosing as int,
                )) + spec_cc_node(
                    nodes,
                    parents,
                    c as int,
                    child_nesting as int,
                    child_enclosing as int,
                ));
                assert(incs@ =~= old(incs)@ + spec_map_incs(
                    nodes,
                    enter_incs + spec_cc_children(
                        nodes,
                        parents,
                        i as int,
                        k + 1,
                        child_nesting as int,
                        child_enclosing as int,
                    ),
                ));
            }
            k = k + 1;
        }
    }
    proof {
        assert(spec_cc_ok(nodes, parents, i as int));
        assert(incs@ =~= old(incs)@ + spec_map_incs(
            nodes,
            spec_cc_node(nodes, parents, i as int, nesting as int, enclosing as int),
        ));
    }
    Ok(())
}

/// A child's subtree is strictly smaller than its parent's.
proof fn lemma_size_nonneg_child(nodes: Seq<NodeData>, i: int, k: int)
    requires
        0 <= k < nodes[i].children@.len(),
    ensures
        (0 <= nodes[i].children@[k] < i) ==> spec_size(nodes, nodes[i].children@[k] as int)
            <= spec_size_children(nodes, i, k + 1),
{
    let c = nodes[i].children@[k] as int;
    crate::tree::lemma_size_children_nonneg(nodes, i, k);
}

/// The total complexity of a sequence of emitted increments.
pub open spec fn spec_total_of(incs: Seq<Increment>) -> int
    decreases incs.len(),
{
    if incs.len() == 0 {
        0
    } else {
        spec_total_of(incs.drop_last()) + incs.last().nesting + 1
    }
}

/// The cognitive complexity of the region rooted at `i`: the total of the
/// increments of its walk, entered outside any function.
pub open spec fn spec_cc_total(nodes: Seq<NodeData>, parents: Seq<Option<usize>>, i: int) -> int {
    spec_total_of(spec_map_incs(nodes, spec_cc_node(nodes, parents, i, 0, 0)))
}

proof fn lemma_total_of_prefix(incs: Seq<Increment>, k: int)
    requires
        0 <= k <= incs.len(),
    ensures
        spec_total_of(incs.take(k)) <= spec_total_of(incs),
    decreases incs.len(),
{
    if k < incs.len() {
        assert(incs.drop_last().take(k) =~= incs.take(k));
        lemma_total_of_prefix(incs.drop_last(), k);
    } else {
        assert(incs.take(k) =~= incs);
    }
}

/// Sums `nesting + 1` over the increments; `None` when the total does not
/// fit the reported range.
#[verifier::loop_isolation(false)]
pub(crate) fn total_of(incs: &Vec<Increment>) -> (r: Option<i32>)
    ensures
        r matches Some(v) ==> v == spec_total_of(incs@) && spec_total_of(incs@) <= i32::MAX,
        r is None ==> spec_total_of(incs@) > i32::MAX,
{
    let n = incs.len();
    let mut total: usize = 0;
    let mut k: usize = 0;
    proof {
        assert(incs@.take(0) =~= Seq::<Increment>::empty());
    }
    while k < n
        invariant
            k <= n,
            total == spec_total_of(incs@.take(k as int)),
            total <= 0x7FFF_FFFF,
        decreases n - k,
    {
        let nesting = incs[k].nesting;
        proof {
            assert(incs@.take(k + 1).drop_last() =~= incs@.take(k as int));
            assert(incs@.take(k + 1).last() == incs@[k as int]);
            lemma_total_of_prefix(incs@, k + 1);
        }
        if nesting >= 0x7FFF_FFFF {
            return None;
        }
        let t2 = total + nesting + 1;
        if t2 > 0x7FFF_FFFF {
            return None;
        }
        total = t2;
        k = k + 1;
    }
    proof {
        assert(incs@.take(n as int) =~= incs@);
    }
    Some(total as i32)
}

/// Returns whether a node is a binary expression over `&&` or `||`.
pub fn is_logical_operator(tree: &SyntaxTree, node: usize) -> (r: bool)
    requires
        tree.wf(),
        node < tree.nodes@.len(),
    ensures
        r == spec_is_logical_operator(tree.nodes@, node as int),
{
    crate::visitors::walk::is_logical_operator_at(tree, node)
}

/// Walks the region rooted at `node` and returns its increments, one per
/// costly construct, each with the nesting level it was found at.
pub fn calculate_cognitive_complexity(tree: &SyntaxTree, node: usize) -> (r: Result<
    Vec<Increment>,
    AnalyzerError,
>)
    requires
        tree.wf(),
        node < tree.nodes@.len(),
    ensures
        r is Ok <==> spec_cc_ok(tree.nodes@, tree.parents@, node as int),
        r matches Ok(v) ==> v@ == spec_map_incs(
            tree.nodes@,
            spec_cc_node(tree.nodes@, tree.parents@, node as int, 0, 0),
        ),
        r matches Err(e) ==> e matches AnalyzerError::FileError(m) && spec_cc_walk_error_message(
            m@,
        ),
{
    let mut incs: Vec<Increment> = Vec::new();
    proof {
        assert(spec_size(tree.nodes@, node as int) <= tree.nodes@.len());
    }
    match cc_visit(tree, node, 0, 0, &mut incs) {
        Ok(()) => {
            proof {
                assert(incs@ =~= spec_map_incs(
                    tree.nodes@,
                    spec_cc_node(tree.nodes@, tree.parents@, node as int, 0, 0),
                ));
            }
            Ok(incs)
        },
        Err(e) => Err(e),
    }
}

/// The cognitive complexity of the whole file: the total of the increments
/// of the walk from the root.
pub fn calculate_total_cognitive_complexity(tree: &SyntaxTree) -> (r: Result<i32, AnalyzerError>)
    requires
        tree.wf(),
    ensures
        r matches Ok(v) ==> spec_cc_ok(tree.nodes@, tree.parents@, tree.spec_root()) && v
            == spec_cc_total(tree.nodes@, tree.parents@, tree.spec_root()),
        r is Err ==> !spec_cc_ok(tree.nodes@, tree.parents@, tree.spec_root()) || spec_cc_total(
            tree.nodes@,
            tree.parents@,
            tree.spec_root(),
        ) > i32::MAX,
        r matches Err(e) ==> e matches AnalyzerError::FileError(m) && (spec_cc_walk_error_message(
            m@,
        ) || m@ == "the cognitive complexity does not fit the reported range"@),
{
    let root = tree.root();
    let incs = match calculate_cognitive_complexity(tree, root) {
        Ok(v) => v,
        Err(e) => { return Err(e) },
    };
    match total_of(&incs) {
        Some(v) => Ok(v),
        None => Err(
            AnalyzerError::FileError(
                String::from_str("the cognitive complexity does not fit the reported range"),
            ),
        ),
    }
}

/// The total of a concatenation of increments is the sum of the totals.
pub proof fn lemma_incs_total_concat(a: Seq<(int, int)>, b: Seq<(int, int)>)
    ensures
        spec_incs_total(a + b) == spec_incs_total(a) + spec_incs_total(b),
    decreases b.len(),
{
    if b.len() == 0 {
        assert(a + b =~= a);
    } else {
        assert((a + b).drop_last() =~= a + b.drop_last());
        lemma_incs_total_concat(a, b.drop_last());
    }
}

/// A function definition is walked the same way whatever nesting level the
/// walk reaches it at: its enter step emits nothing and resets the nesting
/// of its children.
pub proof fn lemma_cc_fn_nesting_independent(
    nodes: Seq<NodeData>,
    parents: Seq<Option<usize>>,
    i: int,
    n1: int,
    n2: int,
)
    requires
        nodes[i].kind == NodeKind::FunctionItem,
    ensures
        spec_cc_node(nodes, parents, i, n1, 0) == spec_cc_node(nodes, parents, i, n2, 0),
{
    assert(spec_cc_enter(nodes, parents, i, n1) =~= Seq::<(int, int)>::empty());
    assert(spec_cc_enter(nodes, parents, i, n2) =~= Seq::<(int, int)>::empty());
    assert(spec_cc_node(nodes, parents, i, n1, 0) =~= spec_cc_node(nodes, parents, i, n2, 0));
}

/// The summed standalone totals of the outermost function definitions in
/// the subtree rooted at `i`: the walk of each such function entered on its
/// own, as the cognitive-complexity rule runs it.
pub open spec fn spec_fn_sum(nodes: Seq<NodeData>, parents: Seq<Option<usize>>, i: int) -> int
    decreases i, nodes[i].children@.len() + 1,
{
    if nodes[i].kind == NodeKind::FunctionItem {
        spec_incs_total(spec_cc_node(nodes, parents, i, 0, 0))
    } else if nodes[i].extra {
        0
    } else {
        spec_fn_sum_children(nodes, parents, i, nodes[i].children@.len() as int)
    }
}

pub open spec fn spec_fn_sum_children(
    nodes: Seq<NodeData>,
    parents: Seq<Option<usize>>,
    i: int,
    k: int,
) -> int
    decreases i, k,
{
    if k <= 0 {
        0
    } else {
        spec_fn_sum_children(nodes, parents, i, k - 1) + {
            let c = nodes[i].children@[k - 1] as int;
            if 0 <= c < i {
                spec_fn_sum(nodes, parents, c)
            } else {
                0
            }
        }
    }
}

/// The total of the increments that the walk emits outside any function
/// definition in the subtree rooted at `i`, entered at the given nesting.
pub open spec fn spec_outside_total(
    nodes: Seq<NodeData>,
    parents: Seq<Option<usize>>,
    i: int,
    nesting: int,
) -> int
    decreases i, nodes[i].children@.len() + 1,
{
    if nodes[i].kind == NodeKind::FunctionItem {
        0
    } else {
        spec_incs_total(spec_cc_enter(nodes, parents, i, nesting)) + if nodes[i].extra {
            0
        } else {
            spec_outside_total_children(
                nodes,
                parents,
                i,
                nodes[i].children@.len() as int,
                spec_cc_child_nesting(nodes, parents, i, nesting, 0),
            )
        }
    }
}

pub open spec fn spec_outside_total_children(
    nodes: Seq<NodeData>,
    parents: Seq<Option<usize>>,
    i: int,
    k: int,
    nesting: int,
) -> int
    decreases i, k,
{
    if k <= 0 {
        0
    } else {
        spec_outside_total_children(nodes, parents, i, k - 1, nesting) + {
            let c = nodes[i].children@[k - 1] as int;
            if 0 <= c < i {
                spec_outside_total(nodes, parents, c, nesting)
            } else {
                0
            }
        }
    }
}

/// Law: the total of a walk entered outside any function splits into the
/// standalone totals of the outermost function definitions it reaches, plus
/// the increments of the code outside every function. Applied at the root
/// with nesting 0, this says the file's cognitive complexity is the sum of
/// the outer functions' complexities plus the top-level increments.
pub proof fn lemma_cc_additivity(
    nodes: Seq<NodeData>,
    parents: Seq<Option<usize>>,
    i: int,
    nesting: int,
)
    ensures
        spec_incs_total(spec_cc_node(nodes, parents, i, nesting, 0)) == spec_fn_sum(
            nodes,
            parents,
            i,
        ) + spec_outside_total(nodes, parents, i, nesting),
    decreases i, nodes[i].children@.len() + 1,
{
    if nodes[i].kind == NodeKind::FunctionItem {
        lemma_cc_fn_nesting_independent(nodes, parents, i, nesting, 0);
    } else {
        let enter = spec_cc_enter(nodes, parents, i, nesting);
        let child_nesting = spec_cc_child_nesting(nodes, parents, i, nesting, 0);
        let m = nodes[i].children@.len() as int;
        if nodes[i].extra {
            lemma_incs_total_concat(enter, Seq::empty());
            assert(enter + Seq::<(int, int)>::empty() =~= enter);
        } else {
            lemma_cc_additivity_children(nodes, parents, i, m, child_nesting);
            lemma_incs_total_concat(
                enter,
                spec_cc_children(nodes, parents, i, m, child_nesting, 0),
            );
        }
    }
}

pub proof fn lemma_cc_additivity_children(
    nodes: Seq<NodeData>,
    parents: Seq<Option<usize>>,
    i: int,
    k: int,
    nesting: int,
)
    ensures
        spec_incs_total(spec_cc_children(nodes, parents, i, k, nesting, 0))
            == spec_fn_sum_children(nodes, parents, i, k) + spec_outside_total_children(
            nodes,
            parents,
            i,
            k,
            nesting,
        ),
    decreases i, k,
{
    if k > 0 {
        lemma_cc_additivity_children(nodes, parents, i, k - 1, nesting);
        let c = nodes[i].children@[k - 1] as int;
        if 0 <= c < i {
            lemma_cc_additivity(nodes, parents, c, nesting);
            lemma_incs_total_concat(
                spec_cc_children(nodes, parents, i, k - 1, nesting, 0),
                spec_cc_node(nodes, parents, c, nesting, 0),
            );
        } else {
            lemma_incs_total_concat(
                spec_cc_children(nodes, parents, i, k - 1, nesting, 0),
                Seq::empty(),
            );
            assert(spec_cc_children(nodes, parents, i, k - 1, nesting, 0)
                + Seq::<(int, int)>::empty() =~= spec_cc_children(
                nodes,
                parents,
                i,
                k - 1,
                nesting,
                0,
            ));
        }
    }
}

} // verus!
