//! Per-node weights summed over the tree.
//!
//! Several analyzers reduce to "add a small weight for every node of the
//! tree, treating extra nodes as leaves". The weights are named here, and
//! one recursion sums any of them, so that the bounds and comparisons
//! between analyzers are proved once.
use vstd::prelude::*;

verus! {

use crate::tree::{
    FieldName,
    NodeData,
    NodeKind,
    SyntaxTree,
    child_by_field,
    first_named_child,
    spec_child_by_field,
    spec_first_named_child,
    spec_size,
    spec_size_children,
};

/// A logical short-circuit binary expression: its `operator` child is `&&`
/// or `||`.
pub open spec fn spec_is_logical_operator(nodes: Seq<NodeData>, i: int) -> bool {
    &&& nodes[i].kind == NodeKind::BinaryExpression
    &&& match spec_child_by_field(nodes, i, FieldName::Operator) {
        Option::Some(op) => nodes[op as int].kind == NodeKind::AmpAmp || nodes[op as int].kind
            == NodeKind::PipePipe,
        Option::None => false,
    }
}

/// The node has the given field, and when that field is a block, the block
/// has at least one named child.
pub open spec fn spec_has_non_empty_field(nodes: Seq<NodeData>, i: int, field: FieldName) -> bool {
    match spec_child_by_field(nodes, i, field) {
        Option::Some(c) => {
            if nodes[c as int].kind == NodeKind::Block {
                spec_first_named_child(nodes, c as int) is Some
            } else {
                true
            }
        },
        Option::None => false,
    }
}

/// The weights that the counting analyzers assign to a single node.
#[derive(Clone, Copy, Debug, PartialEq, Eq, Structural)]
pub enum Weight {
    /// Cyclomatic complexity: branching constructs, logical operators,
    /// non-empty match arms and non-empty function bodies.
    Cyclomatic,
    /// Function definitions.
    Functions,
    /// Function definitions with a non-empty body.
    NonEmptyFunctions,
    /// Struct-like and enum-like type definitions.
    Classes,
    /// Expression statements, local bindings and empty statements.
    Statements,
}

/// The weight of node `i`: 0 or 1.
pub open spec fn spec_weight(w: Weight, nodes: Seq<NodeData>, i: int) -> int {
    match w {
        Weight::Cyclomatic => {
            if nodes[i].kind == NodeKind::IfExpression || nodes[i].kind == NodeKind::LoopExpression
                || nodes[i].kind == NodeKind::WhileExpression || nodes[i].kind
                == NodeKind::ForExpression || nodes[i].kind == NodeKind::ClosureExpression
                || spec_is_logical_operator(nodes, i) || (nodes[i].kind == NodeKind::MatchArm
                && spec_has_non_empty_field(nodes, i, FieldName::Value)) || (nodes[i].kind
                == NodeKind::FunctionItem && spec_has_non_empty_field(nodes, i, FieldName::Body)) {
                1
            } else {
                0
            }
        },
        Weight::Functions => {
            if nodes[i].kind == NodeKind::FunctionItem {
                1
            } else {
                0
            }
        },
        Weight::NonEmptyFunctions => {
            if nodes[i].kind == NodeKind::FunctionItem && spec_has_non_empty_field(
                nodes,
                i,
                FieldName::Body,
            ) {
                1
            } else {
                0
            }
        },
        Weight::Classes => {
            if nodes[i].kind == NodeKind::StructItem || nodes[i].kind == NodeKind::EnumItem {
                1
            } else {
                0
            }
        },
        Weight::Statements => {
            if nodes[i].kind == NodeKind::ExpressionStatement || nodes[i].kind
                == NodeKind::LetDeclaration || nodes[i].kind == NodeKind::EmptyStatement {
                1
            } else {
                0
            }
        },
    }
}

/// The sum of the weight over the subtree rooted at `i`, with extra nodes
/// treated as leaves. A child index that is not below its parent's
/// contributes nothing; a well-formed arena has none.
pub open spec fn spec_tree_sum(w: Weight, nodes: Seq<NodeData>, i: int) -> int
    decreases i, nodes[i].children@.len() + 1,
{
    spec_weight(w, nodes, i) + if nodes[i].extra {
        0
    } else {
        spec_tree_sum_children(w, nodes, i, nodes[i].children@.len() as int)
    }
}

/// The summed weights of the subtrees of the first `k` children of `i`.
pub open spec fn spec_tree_sum_children(w: Weight, nodes: Seq<NodeData>, i: int, k: int) -> int
    decreases i, k,
{
    if k <= 0 {
        0
    } else {
        spec_tree_sum_children(w, nodes, i, k - 1) + {
            let c = nodes[i].children@[k - 1] as int;
            if 0 <= c < i {
                spec_tree_sum(w, nodes, c)
            } else {
                0
            }
        }
    }
}

/// Any tree sum lies between 0 and the subtree size.
pub proof fn lemma_tree_sum_bounds(w: Weight, nodes: Seq<NodeData>, i: int)
    ensures
        0 <= spec_tree_sum(w, nodes, i) <= spec_size(nodes, i),
    decreases i, nodes[i].children@.len() + 2,
{
    lemma_tree_sum_children_bounds(w, nodes, i, nodes[i].children@.len() as int);
    crate::tree::lemma_size_children_nonneg(nodes, i, nodes[i].children@.len() as int);
}

pub proof fn lemma_tree_sum_children_bounds(w: Weight, nodes: Seq<NodeData>, i: int, k: int)
    ensures
        0 <= spec_tree_sum_children(w, nodes, i, k) <= spec_size_children(nodes, i, k),
    decreases i, k + 1,
{
    if k > 0 {
        lemma_tree_sum_children_bounds(w, nodes, i, k - 1);
        let c = nodes[i].children@[k - 1] as int;
        if 0 <= c < i {
            lemma_tree_sum_bounds(w, nodes, c);
        }
    }
}

/// A pointwise smaller weight sums to a smaller total.
pub proof fn lemma_tree_sum_mono(w1: Weight, w2: Weight, nodes: Seq<NodeData>, i: int)
    requires
        forall|j: int| spec_weight(w1, nodes, j) <= spec_weight(w2, nodes, j),
    ensures
        spec_tree_sum(w1, nodes, i) <= spec_tree_sum(w2, nodes, i),
    decreases i, nodes[i].children@.len() + 2,
{
    lemma_tree_sum_children_mono(w1, w2, nodes, i, nodes[i].children@.len() as int);
}

pub proof fn lemma_tree_sum_children_mono(
    w1: Weight,
    w2: Weight,
    nodes: Seq<NodeData>,
    i: int,
    k: int,
)
    requires
        forall|j: int| spec_weight(w1, nodes, j) <= spec_weight(w2, nodes, j),
    ensures
        spec_tree_sum_children(w1, nodes, i, k) <= spec_tree_sum_children(w2, nodes, i, k),
    decreases i, k + 1,
{
    if k > 0 {
        lemma_tree_sum_children_mono(w1, w2, nodes, i, k - 1);
        let c = nodes[i].children@[k - 1] as int;
        if 0 <= c < i {
            lemma_tree_sum_mono(w1, w2, nodes, c);
        }
    }
}

/// Decides whether a node has the given field with a non-empty value, as
/// the weights define it.
pub fn has_non_empty_field_at(tree: &SyntaxTree, i: usize, field: FieldName) -> (r: bool)
    requires
        tree.wf(),
        i < tree.nodes@.len(),
    ensures
        r == spec_has_non_empty_field(tree.nodes@, i as int, field),
{
    match child_by_field(tree, i, field) {
        Some(c) => {
            if tree.nodes[c].kind == NodeKind::Block {
                first_named_child(tree, c).is_some()
            } else {
                true
            }
        },
        None => false,
    }
}

/// Decides whether a node is a logical short-circuit binary expression.
pub fn is_logical_operator_at(tree: &SyntaxTree, i: usize) -> (r: bool)
    requires
        tree.wf(),
        i < tree.nodes@.len(),
    ensures
        r == spec_is_logical_operator(tree.nodes@, i as int),
{
    if tree.nodes[i].kind != NodeKind::BinaryExpression {
        return false;
    }
    match child_by_field(tree, i, FieldName::Operator) {
        Some(op) => tree.nodes[op].kind == NodeKind::AmpAmp || tree.nodes[op].kind
            == NodeKind::PipePipe,
        None => false,
    }
}

/// The weight of one node, executably.
fn node_weight(tree: &SyntaxTree, i: usize, w: Weight) -> (r: usize)
    requires
        tree.wf(),
        i < tree.nodes@.len(),
    ensures
        r as int == spec_weight(w, tree.nodes@, i as int),
        r <= 1,
{
    let hit: bool = match w {
        Weight::Cyclomatic => {
            tree.nodes[i].kind == NodeKind::IfExpression || tree.nodes[i].kind
                == NodeKind::LoopExpression || tree.nodes[i].kind == NodeKind::WhileExpression
                || tree.nodes[i].kind == NodeKind::ForExpression || tree.nodes[i].kind
                == NodeKind::ClosureExpression || is_logical_operator_at(tree, i) || (
            tree.nodes[i].kind == NodeKind::MatchArm && has_non_empty_field_at(
                tree,
                i,
                FieldName::Value,
            )) || (tree.nodes[i].kind == NodeKind::FunctionItem && has_non_empty_field_at(
                tree,
                i,
                FieldName::Body,
            ))
        },
        Weight::Functions => tree.nodes[i].kind == NodeKind::FunctionItem,
        Weight::NonEmptyFunctions => tree.nodes[i].kind == NodeKind::FunctionItem
            && has_non_empty_field_at(tree, i, FieldName::Body),
        Weight::Classes => tree.nodes[i].kind == NodeKind::StructItem || tree.nodes[i].kind
            == NodeKind::EnumItem,
        Weight::Statements => tree.nodes[i].kind == NodeKind::ExpressionStatement
            || tree.nodes[i].kind == NodeKind::LetDeclaration || tree.nodes[i].kind
            == NodeKind::EmptyStatement,
    };
    if hit {
        1
    } else {
        0
    }
}

/// Sums the weight over the subtree rooted at `i`.
#[verifier::loop_isolation(false)]
#[verifier::rlimit(60)]
pub fn tree_sum(tree: &SyntaxTree, i: usize, w: Weight) -> (r: usize)
    requires
        tree.wf(),
        i < tree.nodes@.len(),
    ensures
        r as int == spec_tree_sum(w, tree.nodes@, i as int),
        r as int <= spec_size(tree.nodes@, i as int),
    decreases i,
{
    proof {
        assert(crate::tree::wf_node(
            tree.nodes@,
            tree.parents@,
            tree.src_len,
            tree.n_lines,
            i as int,
        ));
        lemma_tree_sum_bounds(w, tree.nodes@, i as int);
    }
    let mut total: usize = node_weight(tree, i, w);
    if !tree.nodes[i].extra {
        let m = tree.nodes[i].children.len();
        let mut k: usize = 0;
        while k < m
            invariant
                k <= m,
                total as int == spec_weight(w, tree.nodes@, i as int) + spec_tree_sum_children(
                    w,
                    tree.nodes@,
                    i as int,
                    k as int,
                ),
            decreases m - k,
        {
            let c = tree.nodes[i].children[k];
            let sub = tree_sum(tree, c, w);
            proof {
                lemma_tree_sum_children_bounds(w, tree.nodes@, i as int, k + 1);
                crate::tree::lemma_size_children_mono(tree.nodes@, i as int, k + 1, m as int);
                crate::tree::lemma_size_children_nonneg(tree.nodes@, i as int, k + 1);
                assert(spec_tree_sum_children(w, tree.nodes@, i as int, k + 1)
                    == spec_tree_sum_children(w, tree.nodes@, i as int, k as int) + spec_tree_sum(
                    w,
                    tree.nodes@,
                    c as int,
                ));
                assert(spec_weight(w, tree.nodes@, i as int) + spec_tree_sum_children(
                    w,
                    tree.nodes@,
                    i as int,
                    k + 1,
                ) <= spec_size(tree.nodes@, i as int));
                assert(spec_size(tree.nodes@, i as int) <= tree.nodes@.len());
            }
            total = total + sub;
            k = k + 1;
        }
    }
    total
}


} // verus!
