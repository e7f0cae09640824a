//! Cyclomatic complexity: one point per branching construct, logical
//! operator, non-empty match arm and non-empty function body.
use vstd::prelude::*;

verus! {

use crate::tree::{AnalyzerError, NodeData, SyntaxTree, spec_size};
use crate::visitors::walk::{Weight, lemma_tree_sum_mono, spec_tree_sum, spec_weight, tree_sum};

/// The cyclomatic complexity of a whole tree.
pub open spec fn spec_cyclomatic(nodes: Seq<NodeData>) -> int {
    spec_tree_sum(Weight::Cyclomatic, nodes, nodes.len() - 1)
}

/// Calculates the cyclomatic complexity of the tree: +1 for every
/// if/loop/while/for/closure expression, every logical `&&`/`||` operator,
/// every match arm with a non-empty value, and every function with a
/// non-empty body.
pub fn calculate_cyclomatic_complexity(tree: &SyntaxTree) -> (r: Result<i32, AnalyzerError>)
    requires
        tree.wf(),
    ensures
        r matches Ok(v) ==> v as int == spec_cyclomatic(tree.nodes@),
        r is Ok,
{
    let root = tree.root();
    let total = tree_sum(tree, root, Weight::Cyclomatic);
    proof {
        assert(spec_size(tree.nodes@, root as int) <= tree.nodes@.len());
    }
    Ok(total as i32)
}

/// Law: the cyclomatic complexity of a file is at least the number of its
/// functions with a non-empty body, since every such function contributes
/// one point of its own.
pub proof fn lemma_cyclomatic_lower_bound(nodes: Seq<NodeData>)
    ensures
        spec_cyclomatic(nodes) >= spec_tree_sum(
            Weight::NonEmptyFunctions,
            nodes,
            nodes.len() - 1,
        ),
{
    assert forall|j: int|
        spec_weight(Weight::NonEmptyFunctions, nodes, j) <= spec_weight(
            Weight::Cyclomatic,
            nodes,
            j,
        ) by {}
    lemma_tree_sum_mono(
        Weight::NonEmptyFunctions,
        Weight::Cyclomatic,
        nodes,
        nodes.len() - 1,
    );
}

} // verus!
