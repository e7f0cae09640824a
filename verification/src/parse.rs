//! Building the arena from the parser's tree.
//!
//! A cursor walk collects every node in post-order; a second pass derives the
//! parent of each node; a final validation pass decides [`wf_arena`], so that
//! nothing about the shape of the arena rests on the parser.
use vstd::prelude::*;

verus! {

use crate::text::{SRC_LIMIT, newline_count};
use vstd::string::{StringExecFns, StringSliceAdditionalSpecFns};
use crate::tree::{
    AnalyzerError,
    MAX_NODES,
    NodeData,
    SyntaxTree,
    field_of,
    kind_of,
    NodeKind,
    lemma_size_children_mono,
    lemma_size_children_nonneg,
    lemma_size_nonneg,
    spec_size,
    spec_size_children,
    wf_arena,
    wf_bytes_order,
    wf_bytes_within,
    wf_children_shape,
    wf_node,
    wf_node_bounds,
    wf_node_bytes,
    wf_parent_link,
    wf_parents_consistent,
    wf_raw_strings_lone,
};
use crate::ts_api;

/// The messages with which the collection walk can fail.
pub open spec fn spec_walk_error_message(m: Seq<char>) -> bool {
    ||| m == "walk left the traversal stack empty"@
    ||| m == "the parse tree is too large"@
    ||| m == "walk did not terminate"@
}

/// The messages with which parsing can fail for this file alone.
pub open spec fn spec_parse_file_error_message(m: Seq<char>) -> bool {
    ||| spec_walk_error_message(m)
    ||| m == "the source text is too large"@
    ||| m == "failed to parse the source code"@
    ||| m == "the parse tree violates the expected invariants"@
}

/// Reads the plain data of the node the cursor points at; the child list
/// starts empty and is filled as the walk returns to the node.
fn read_node(cursor: &tree_sitter::TreeCursor<'_>) -> NodeData {
    let node = ts_api::ts_cursor_node(cursor);
    let kind_string = ts_api::ts_node_kind(&node);
    let kind = kind_of(kind_string.as_str());
    let field = field_of(&ts_api::ts_cursor_field_name(cursor));
    let (start_row, start_col) = ts_api::ts_node_start_point(&node);
    let (end_row, end_col) = ts_api::ts_node_end_point(&node);
    let missing = ts_api::ts_node_is_missing(&node);
    let sexp = if missing {
        Some(ts_api::ts_node_sexp(&node))
    } else {
        None
    };
    NodeData {
        kind,
        field,
        start_byte: ts_api::ts_node_start_byte(&node),
        end_byte: ts_api::ts_node_end_byte(&node),
        start_row,
        start_col,
        end_row,
        end_col,
        named: ts_api::ts_node_is_named(&node),
        missing,
        error: ts_api::ts_node_is_error(&node),
        extra: ts_api::ts_node_is_extra(&node),
        children: Vec::new(),
        sexp,
    }
}

/// Walks the whole tree with a cursor and returns its nodes in post-order:
/// every node is appended after all of its children, so each child index is
/// smaller than its parent's (the validation pass re-checks this).
fn collect_nodes(ts: &tree_sitter::Tree) -> (r: Result<Vec<NodeData>, AnalyzerError>)
    ensures
        r matches Err(e) ==> e matches AnalyzerError::FileError(m) && spec_walk_error_message(m@),
{
    let mut cursor = ts_api::ts_tree_cursor(ts);
    let mut stack: Vec<NodeData> = Vec::new();
    let mut nodes: Vec<NodeData> = Vec::new();
    let mut going_down = true;
    let mut fuel: usize = usize::MAX;
    while fuel > 0
        decreases fuel,
    {
        fuel = fuel - 1;
        if going_down {
            stack.push(read_node(&cursor));
            if !ts_api::ts_goto_first_child(&mut cursor) {
                going_down = false;
            }
        } else {
            let mut done = match stack.pop() {
                Some(d) => d,
                None => {
                    return Err(
                        AnalyzerError::FileError(
                            String::from_str("walk left the traversal stack empty"),
                        ),
                    );
                },
            };
            if nodes.len() >= MAX_NODES {
                return Err(
                    AnalyzerError::FileError(String::from_str("the parse tree is too large")),
                );
            }
            nodes.push(done);
            let index = nodes.len() - 1;
            if let Some(mut parent) = stack.pop() {
                parent.children.push(index);
                stack.push(parent);
            }
            if ts_api::ts_goto_next_sibling(&mut cursor) {
                going_down = true;
            } else if !ts_api::ts_goto_parent(&mut cursor) {
                return Ok(nodes);
            }
        }
    }
    Err(AnalyzerError::FileError(String::from_str("walk did not terminate")))
}

/// Derives the parent of each node from the child lists.
fn compute_parents(nodes: &Vec<NodeData>) -> (r: Vec<Option<usize>>)
    ensures
        r@.len() == nodes@.len(),
{
    let n = nodes.len();
    let mut parents: Vec<Option<usize>> = Vec::new();
    let mut j: usize = 0;
    while j < n
        invariant
            parents@.len() == j,
            j <= n,
        decreases n - j,
    {
        parents.push(None);
        j = j + 1;
    }
    let mut i: usize = 0;
    while i < n
        invariant
            parents@.len() == n,
            n == nodes@.len(),
            i <= n,
        decreases n - i,
    {
        let n_children = nodes[i].children.len();
        let mut k: usize = 0;
        while k < n_children
            invariant
                parents@.len() == n,
                n == nodes@.len(),
                i < n,
                k <= n_children,
                n_children == nodes@[i as int].children@.len(),
            decreases n_children - k,
        {
            let c = nodes[i].children[k];
            if c < n {
                parents.set(c, Some(i));
            }
            k = k + 1;
        }
        i = i + 1;
    }
    parents
}

/// Decides the shape of one node's child list.
#[verifier::loop_isolation(false)]
fn check_children_shape(nodes: &Vec<NodeData>, i: usize) -> (r: bool)
    requires
        i < nodes@.len(),
    ensures
        r == wf_children_shape(nodes@, i as int),
{
    let n_children = nodes[i].children.len();
    let mut k: usize = 0;
    while k < n_children
        invariant
            k <= n_children,
            forall|j: int| 0 <= j < k ==> (#[trigger] nodes@[i as int].children@[j]) < i,
            forall|j: int|
                0 <= j < k && j + 1 < n_children ==> (#[trigger] nodes@[i as int].children@[j])
                    < nodes@[i as int].children@[j + 1],
        decreases n_children - k,
    {
        let c = nodes[i].children[k];
        if !(c < i) {
            return false;
        }
        if k + 1 < n_children && !(c < nodes[i].children[k + 1]) {
            return false;
        }
        k = k + 1;
    }
    true
}

/// Decides the numeric bounds of one node record.
fn check_node_bounds(n: &NodeData, src_len: usize, n_lines: usize) -> (r: bool)
    ensures
        r == wf_node_bounds(*n, src_len, n_lines),
{
    n.start_byte <= n.end_byte && n.end_byte <= src_len && n.start_col <= n.start_byte
        && n.end_col <= n.end_byte && n.start_row <= n.end_row && n.end_row < n_lines && (
    n.start_row < n.end_row || n.start_col <= n.end_col)
}

/// Decides whether the children's byte ranges lie inside the parent's.
#[verifier::loop_isolation(false)]
#[verifier::rlimit(60)]
fn check_bytes_within(nodes: &Vec<NodeData>, i: usize) -> (r: bool)
    requires
        i < nodes@.len(),
        wf_children_shape(nodes@, i as int),
    ensures
        r == wf_bytes_within(nodes@, i as int),
{
    let n_children = nodes[i].children.len();
    let mut k: usize = 0;
    while k < n_children
        invariant
            k <= n_children,
            forall|j: int|
                0 <= j < k ==> nodes@[i as int].start_byte <= nodes@[(
                #[trigger] nodes@[i as int].children@[j]) as int].start_byte && nodes@[nodes@[
                    i as int
                ].children@[j] as int].end_byte <= nodes@[i as int].end_byte,
        decreases n_children - k,
    {
        let c = nodes[i].children[k];
        if !(nodes[i].start_byte <= nodes[c].start_byte && nodes[c].end_byte <= nodes[i].end_byte) {
            return false;
        }
        k = k + 1;
    }
    true
}

/// Decides whether consecutive children's byte ranges respect source order.
#[verifier::loop_isolation(false)]
#[verifier::rlimit(100)]
fn check_bytes_order(nodes: &Vec<NodeData>, i: usize) -> (r: bool)
    requires
        i < nodes@.len(),
        wf_children_shape(nodes@, i as int),
    ensures
        r == wf_bytes_order(nodes@, i as int),
{
    let n_children = nodes[i].children.len();
    if n_children == 0 {
        return true;
    }
    let mut k: usize = 0;
    while k + 1 < n_children
        invariant
            k < n_children,
            forall|j: int|
                0 <= j && j + 1 < k + 1 ==> nodes@[(#[trigger] nodes@[i as int].children@[j]) as int].end_byte
                    <= nodes@[nodes@[i as int].children@[j + 1] as int].start_byte,
        decreases n_children - k,
    {
        let c = nodes[i].children[k];
        let c2 = nodes[i].children[k + 1];
        if !(nodes[c].end_byte <= nodes[c2].start_byte) {
            return false;
        }
        k = k + 1;
    }
    true
}

/// Decides the parent link of one node.
#[verifier::loop_isolation(false)]
fn check_parent_link(nodes: &Vec<NodeData>, parents: &Vec<Option<usize>>, i: usize) -> (r: bool)
    requires
        i < nodes@.len(),
        parents@.len() == nodes@.len(),
    ensures
        r == wf_parent_link(nodes@, parents@, i as int),
{
    match parents[i] {
        None => true,
        Some(p) => {
            if !(i < p && p < nodes.len()) {
                return false;
            }
            let pc = nodes[p].children.len();
            let mut k: usize = 0;
            while k < pc
                invariant
                    k <= pc,
                    forall|j: int| 0 <= j < k ==> (#[trigger] nodes@[p as int].children@[j]) != i,
                decreases pc - k,
            {
                if nodes[p].children[k] == i {
                    proof {
                        assert(nodes@[p as int].children@.contains(i as usize));
                    }
                    return true;
                }
                k = k + 1;
            }
            proof {
                assert(!nodes@[p as int].children@.contains(i as usize));
            }
            false
        },
    }
}

/// Computes the subtree size of every node, and rejects an arena whose sizes
/// are not bounded by its node count.
#[verifier::loop_isolation(false)]
#[verifier::rlimit(60)]
fn compute_sizes(nodes: &Vec<NodeData>) -> (r: Option<Vec<usize>>)
    requires
        nodes@.len() <= MAX_NODES,
    ensures
        r is Some ==> forall|j: int|
            0 <= j < nodes@.len() ==> #[trigger] spec_size(nodes@, j) <= nodes@.len(),
        r is None ==> !(forall|j: int|
            0 <= j < nodes@.len() ==> #[trigger] spec_size(nodes@, j) <= nodes@.len()),
{
    let n = nodes.len();
    let mut sizes: Vec<usize> = Vec::new();
    let mut i: usize = 0;
    while i < n
        invariant
            sizes@.len() == i,
            i <= n,
            forall|j: int| 0 <= j < i ==> (#[trigger] sizes@[j]) == spec_size(nodes@, j),
            forall|j: int| 0 <= j < i ==> #[trigger] spec_size(nodes@, j) <= n,
        decreases n - i,
    {
        let m = nodes[i].children.len();
        let mut acc: usize = 0;
        let mut k: usize = 0;
        while k < m
            invariant
                k <= m,
                acc == spec_size_children(nodes@, i as int, k as int),
                acc < n,
        decreases m - k,
        {
            let c = nodes[i].children[k];
            if c < i {
                acc = acc + sizes[c];
            }
            proof {
                assert(spec_size_children(nodes@, i as int, k + 1) == spec_size_children(
                    nodes@,
                    i as int,
                    k as int,
                ) + {
                    let ci = nodes@[i as int].children@[k as int] as int;
                    if 0 <= ci < i {
                        spec_size(nodes@, ci)
                    } else {
                        0
                    }
                });
            }
            k = k + 1;
            if acc >= n {
                proof {
                    lemma_size_children_mono(nodes@, i as int, k as int, m as int);
                    assert(spec_size(nodes@, i as int) > n);
                }
                return None;
            }
        }
        proof {
            assert(spec_size(nodes@, i as int) == 1 + spec_size_children(
                nodes@,
                i as int,
                m as int,
            ));
        }
        sizes.push(acc + 1);
        i = i + 1;
    }
    Some(sizes)
}

/// Decides whether the parent table lists every child under its holder.
#[verifier::loop_isolation(false)]
#[verifier::rlimit(60)]
fn check_parents_consistent(nodes: &Vec<NodeData>, parents: &Vec<Option<usize>>) -> (r: bool)
    requires
        parents@.len() == nodes@.len(),
        forall|a: int| 0 <= a < nodes@.len() ==> #[trigger] wf_children_shape(nodes@, a),
    ensures
        r == wf_parents_consistent(nodes@, parents@),
{
    let n = nodes.len();
    let mut a: usize = 0;
    while a < n
        invariant
            a <= n,
            forall|a2: int, k2: int|
                0 <= a2 < a && 0 <= k2 < nodes@[a2].children@.len() ==> parents@[(
                #[trigger] nodes@[a2].children@[k2]) as int] == Some(a2 as usize),
        decreases n - a,
    {
        let m = nodes[a].children.len();
        let mut k: usize = 0;
        while k < m
            invariant
                k <= m,
                forall|k2: int|
                    0 <= k2 < k ==> parents@[(#[trigger] nodes@[a as int].children@[k2]) as int]
                        == Some(a as usize),
            decreases m - k,
        {
            proof {
                assert(wf_children_shape(nodes@, a as int));
            }
            let c = nodes[a].children[k];
            let listed = match parents[c] {
                Some(p) => p == a,
                None => false,
            };
            if !listed {
                return false;
            }
            k = k + 1;
        }
        a = a + 1;
    }
    true
}

/// Decides whether every raw string literal holds at most one child.
#[verifier::loop_isolation(false)]
fn check_raw_strings_lone(nodes: &Vec<NodeData>) -> (r: bool)
    ensures
        r == wf_raw_strings_lone(nodes@),
{
    let n = nodes.len();
    let mut a: usize = 0;
    while a < n
        invariant
            a <= n,
            forall|a2: int|
                0 <= a2 < a && (#[trigger] nodes@[a2].kind) == NodeKind::RawStringLiteral
                    ==> nodes@[a2].children@.len() <= 1,
        decreases n - a,
    {
        if nodes[a].kind == NodeKind::RawStringLiteral && nodes[a].children.len() > 1 {
            return false;
        }
        a = a + 1;
    }
    true
}

/// Decides [`wf_arena`] for a candidate arena.
#[verifier::loop_isolation(false)]
#[verifier::rlimit(60)]
fn validate_arena(
    nodes: &Vec<NodeData>,
    parents: &Vec<Option<usize>>,
    src_len: usize,
    n_lines: usize,
) -> (r: bool)
    ensures
        r == wf_arena(nodes@, parents@, src_len, n_lines),
{
    if !(1 <= nodes.len() && nodes.len() <= MAX_NODES) {
        return false;
    }
    if parents.len() != nodes.len() {
        return false;
    }
    if !(src_len <= SRC_LIMIT) {
        return false;
    }
    if !(1 <= n_lines && n_lines <= src_len + 1) {
        return false;
    }
    let n = nodes.len();
    let mut i: usize = 0;
    while i < n
        invariant
            i <= n,
            forall|j: int| 0 <= j < i ==> #[trigger] wf_children_shape(nodes@, j),
        decreases n - i,
    {
        if !check_children_shape(nodes, i) {
            proof {
                assert(!wf_node(nodes@, parents@, src_len, n_lines, i as int));
            }
            return false;
        }
        i = i + 1;
    }
    if compute_sizes(nodes).is_none() {
        return false;
    }
    if !check_parents_consistent(nodes, parents) {
        return false;
    }
    if !check_raw_strings_lone(nodes) {
        return false;
    }
    i = 0;
    while i < n
        invariant
            i <= n,
            forall|j: int| 0 <= j < i ==> #[trigger] wf_node(nodes@, parents@, src_len, n_lines, j),
            forall|j: int| 0 <= j < i ==> #[trigger] wf_node_bytes(nodes@, j),
        decreases n - i,
    {
        if !check_node_bounds(&nodes[i], src_len, n_lines) {
            proof {
                assert(!wf_node(nodes@, parents@, src_len, n_lines, i as int));
            }
            return false;
        }
        if !check_parent_link(nodes, parents, i) {
            proof {
                assert(!wf_node(nodes@, parents@, src_len, n_lines, i as int));
            }
            return false;
        }
        if !check_bytes_within(nodes, i) {
            proof {
                assert(!wf_node_bytes(nodes@, i as int));
            }
            return false;
        }
        if !check_bytes_order(nodes, i) {
            proof {
                assert(!wf_node_bytes(nodes@, i as int));
            }
            return false;
        }
        proof {
            assert(wf_node(nodes@, parents@, src_len, n_lines, i as int));
            assert(wf_node_bytes(nodes@, i as int));
        }
        i = i + 1;
    }
    true
}

/// Parses a source text and returns its checked syntax tree.
///
/// A source over the size limit, a tree over the node limit, or a tree that
/// does not satisfy the arena invariants is reported as a `FileError`; a
/// parser that cannot be initialized is a `GlobalError`.
pub fn parse_rust_code(source_code: &str) -> (r: Result<SyntaxTree, AnalyzerError>)
    ensures
        r matches Ok(t) ==> t.wf() && t.for_source(source_code.spec_bytes()),
        source_code.spec_bytes().len() > SRC_LIMIT ==> (r matches Err(e) && e is FileError),
        r matches Err(e) ==> (e matches AnalyzerError::FileError(m)
            && spec_parse_file_error_message(m@)) || (e matches AnalyzerError::GlobalError(m2)
            && m2@ == "failed to initialize parser"@),
{
    let bytes = source_code.as_bytes();
    if bytes.len() > SRC_LIMIT {
        return Err(AnalyzerError::FileError(String::from_str("the source text is too large")));
    }
    let ts = match ts_api::ts_parse(source_code) {
        Ok(t) => t,
        Err(true) => {
            return Err(
                AnalyzerError::GlobalError(String::from_str("failed to initialize parser")),
            );
        },
        Err(false) => {
            return Err(
                AnalyzerError::FileError(String::from_str("failed to parse the source code")),
            );
        },
    };
    let nodes = match collect_nodes(&ts) {
        Ok(n) => n,
        Err(e) => { return Err(e) },
    };
    let parents = compute_parents(&nodes);
    let newlines = newline_count(bytes);
    proof {
        crate::text::lemma_newline_count_bound(source_code.spec_bytes());
    }
    let n_lines = newlines + 1;
    if !validate_arena(&nodes, &parents, bytes.len(), n_lines) {
        return Err(
            AnalyzerError::FileError(
                String::from_str("the parse tree violates the expected invariants"),
            ),
        );
    }
    Ok(SyntaxTree::make(ts, nodes, parents, bytes.len(), n_lines))
}

} // verus!
