//! Copy-paste-detection tokens: one normalized token per leaf, with number
//! and string literals collapsed, and test-scoped code suppressed.
use vstd::prelude::*;

verus! {

use crate::location::{SonarLocation, spec_node_sonar};
use crate::text::range_to_string;
use crate::tree::{
    AnalyzerError,
    NodeData,
    NodeKind,
    SyntaxTree,
    child_by_field,
    child_of_kind,
    spec_child_by_field,
    spec_child_of_kind,
    wf_node,
};
use vstd::string::{StringExecFns, StringSliceAdditionalSpecFns};
use vstd::utf8::{decode_utf8, valid_utf8};

/// One normalized token.
#[derive(Debug, PartialEq, Eq, PartialOrd, Ord, Clone)]
pub struct CpdToken {
    pub image: String,
    pub location: SonarLocation,
}

/// The mathematical shadow of a [`CpdToken`].
pub struct SpecToken {
    pub image: Seq<char>,
    pub location: SonarLocation,
}

impl View for CpdToken {
    type V = SpecToken;

    open spec fn view(&self) -> SpecToken {
        SpecToken { image: self.image@, location: self.location }
    }
}

pub open spec fn token_views(s: Seq<CpdToken>) -> Seq<SpecToken> {
    Seq::new(s.len(), |j: int| s[j]@)
}

/// Whether node `i` is an attribute of the exact shape `#[cfg(test)]`.
#[verifier::opaque]
pub open spec fn spec_is_cfg_test(nodes: Seq<NodeData>, src: Seq<u8>, i: int) -> bool {
    &&& nodes[i].kind == NodeKind::AttributeItem
    &&& match spec_child_of_kind(nodes, i, NodeKind::Attribute) {
        Some(a) => {
            &&& match spec_child_of_kind(nodes, a as int, NodeKind::Identifier) {
                Some(id) => src.subrange(
                    nodes[id as int].start_byte as int,
                    nodes[id as int].end_byte as int,
                ) == "cfg".spec_bytes(),
                None => false,
            }
            &&& match spec_child_by_field(nodes, a as int, crate::tree::FieldName::Arguments) {
                Some(args) => match spec_child_of_kind(nodes, args as int, NodeKind::Identifier) {
                    Some(id2) => src.subrange(
                        nodes[id2 as int].start_byte as int,
                        nodes[id2 as int].end_byte as int,
                    ) == "test".spec_bytes(),
                    None => false,
                },
                None => false,
            }
        },
        None => false,
    }
}

/// Decides whether node `i` is a `#[cfg(test)]` attribute.
pub fn is_cfg_test_attribute(tree: &SyntaxTree, node: usize, source_code: &[u8]) -> (r: bool)
    requires
        tree.wf(),
        node < tree.nodes@.len(),
        source_code@.len() == tree.src_len,
    ensures
        r == spec_is_cfg_test(tree.nodes@, source_code@, node as int),
{
    proof {
        reveal(spec_is_cfg_test);
    }
    if tree.nodes[node].kind != NodeKind::AttributeItem {
        return false;
    }
    let a = match child_of_kind(tree, node, NodeKind::Attribute) {
        Some(a) => a,
        None => { return false },
    };
    let cfg_ok: bool = match child_of_kind(tree, a, NodeKind::Identifier) {
        Some(id) => {
            proof {
                assert(wf_node(
                    tree.nodes@,
                    tree.parents@,
                    tree.src_len,
                    tree.n_lines,
                    id as int,
                ));
            }
            crate::text::range_is(
                source_code,
                tree.nodes[id].start_byte,
                tree.nodes[id].end_byte,
                "cfg",
            )
        },
        None => false,
    };
    if !cfg_ok {
        return false;
    }
    match child_by_field(tree, a, crate::tree::FieldName::Arguments) {
        Some(args) => {
            match child_of_kind(tree, args, NodeKind::Identifier) {
                Some(id2) => {
                    proof {
                        assert(wf_node(
                            tree.nodes@,
                            tree.parents@,
                            tree.src_len,
                            tree.n_lines,
                            id2 as int,
                        ));
                    }
                    crate::text::range_is(
                        source_code,
                        tree.nodes[id2].start_byte,
                        tree.nodes[id2].end_byte,
                        "test",
                    )
                },
                None => false,
            }
        },
        None => false,
    }
}

/// The position of the first named child at or after position `from`.
#[verifier::opaque]
pub open spec fn spec_next_named_pos(nodes: Seq<NodeData>, i: int, from: int) -> Option<usize>
    decreases nodes[i].children@.len() - from,
{
    if from < 0 || from >= nodes[i].children@.len() {
        None
    } else if 0 <= (nodes[i].children@[from] as int) < nodes.len() && nodes[nodes[i].children@[from] as int].named {
        Some(from as usize)
    } else {
        spec_next_named_pos(nodes, i, from + 1)
    }
}

/// Finds the position of the first named child at or after `from`.
#[verifier::loop_isolation(false)]
fn next_named_pos(tree: &SyntaxTree, i: usize, from: usize) -> (r: Option<usize>)
    requires
        tree.wf(),
        i < tree.nodes@.len(),
    ensures
        r == spec_next_named_pos(tree.nodes@, i as int, from as int),
{
    proof {
        reveal(spec_next_named_pos);
        assert(wf_node(tree.nodes@, tree.parents@, tree.src_len, tree.n_lines, i as int));
    }
    let m = tree.nodes[i].children.len();
    let mut k: usize = from;
    while k < m
        invariant
            from <= k,
            spec_next_named_pos(tree.nodes@, i as int, from as int) == spec_next_named_pos(
                tree.nodes@,
                i as int,
                k as int,
            ),
        decreases m - k,
    {
        let c = tree.nodes[i].children[k];
        if tree.nodes[c].named {
            return Some(k);
        }
        k = k + 1;
    }
    None
}

/// The token of leaf `i`, if it produces one: literals collapse to `NUMBER`
/// and `STRING`, string content inside a raw string spans the whole raw
/// string, and every other leaf carries its source text. Extra nodes
/// (comments) produce no token, whatever shape the grammar gives them.
pub open spec fn spec_leaf_token(
    nodes: Seq<NodeData>,
    parents: Seq<Option<usize>>,
    src: Seq<u8>,
    i: int,
) -> Seq<SpecToken> {
    if nodes[i].children@.len() == 0 && !nodes[i].missing && !nodes[i].error && !nodes[i].extra
        && nodes[i].kind != NodeKind::SourceFile {
        if nodes[i].kind == NodeKind::IntegerLiteral || nodes[i].kind == NodeKind::FloatLiteral {
            seq![SpecToken { image: "NUMBER"@, location: spec_node_sonar(nodes, i, src) }]
        } else if nodes[i].kind == NodeKind::StringContent {
            let loc = match parents[i] {
                Some(p) => {
                    if p < nodes.len() && nodes[p as int].kind == NodeKind::RawStringLiteral {
                        spec_node_sonar(nodes, p as int, src)
                    } else {
                        spec_node_sonar(nodes, i, src)
                    }
                },
                None => spec_node_sonar(nodes, i, src),
            };
            seq![SpecToken { image: "STRING"@, location: loc }]
        } else {
            let range = src.subrange(nodes[i].start_byte as int, nodes[i].end_byte as int);
            let image = if valid_utf8(range) {
                decode_utf8(range)
            } else {
                Seq::empty()
            };
            seq![SpecToken { image: image, location: spec_node_sonar(nodes, i, src) }]
        }
    } else {
        Seq::empty()
    }
}

/// The tokens of the subtree rooted at `i`. `emit` is false inside
/// test-scoped code.
pub open spec fn spec_cpd(
    nodes: Seq<NodeData>,
    parents: Seq<Option<usize>>,
    src: Seq<u8>,
    i: int,
    emit: bool,
) -> Seq<SpecToken>
    decreases i, nodes[i].children@.len() + 1,
{
    (if emit {
        spec_leaf_token(nodes, parents, src, i)
    } else {
        Seq::empty()
    }) + (if nodes[i].extra {
        Seq::empty()
    } else {
        spec_cpd_children(nodes, parents, src, i, 0, emit, None)
    })
}

/// The tokens of the children of `i` from position `k` on. `until` carries
/// the position of the last child of an active test-scoped region: a
/// `#[cfg(test)]` attribute suppresses itself, everything up to its next
/// named sibling, and that sibling's whole subtree.
pub open spec fn spec_cpd_children(
    nodes: Seq<NodeData>,
    parents: Seq<Option<usize>>,
    src: Seq<u8>,
    i: int,
    k: int,
    emit: bool,
    until: Option<usize>,
) -> Seq<SpecToken>
    decreases i, nodes[i].children@.len() - k,
{
    if k < 0 || k >= nodes[i].children@.len() {
        Seq::empty()
    } else {
        let c = nodes[i].children@[k] as int;
        let until_in: Option<usize> = if 0 <= c < i && spec_is_cfg_test(nodes, src, c)
            && spec_next_named_pos(nodes, i, k + 1) is Some {
            spec_next_named_pos(nodes, i, k + 1)
        } else {
            until
        };
        let child_emit = emit && until_in is None;
        let toks = if 0 <= c < i {
            spec_cpd(nodes, parents, src, c, child_emit)
        } else {
            Seq::empty()
        };
        let until_out: Option<usize> = if until_in == Some(k as usize) {
            None
        } else {
            until_in
        };
        toks + spec_cpd_children(nodes, parents, src, i, k + 1, emit, until_out)
    }
}

/// Walks the subtree rooted at `i` and appends its tokens.
#[verifier::loop_isolation(false)]
#[verifier::rlimit(100)]
fn cpd_visit(tree: &SyntaxTree, src: &[u8], i: usize, emit: bool, out: &mut Vec<CpdToken>)
    requires
        tree.wf(),
        i < tree.nodes@.len(),
        src@.len() == tree.src_len,
    ensures
        token_views(final (out)@) == token_views(old(out)@) + spec_cpd(
            tree.nodes@,
            tree.parents@,
            src@,
            i as int,
            emit,
        ),
    decreases i,
{
    let ghost nodes = tree.nodes@;
    let ghost parents = tree.parents@;
    proof {
        assert(wf_node(nodes, parents, tree.src_len, tree.n_lines, i as int));
    }
    if emit && tree.nodes[i].children.len() == 0 && !tree.nodes[i].missing && !tree.nodes[i].error
        && !tree.nodes[i].extra && tree.nodes[i].kind != NodeKind::SourceFile {
        let kind = tree.nodes[i].kind;
        if kind == NodeKind::IntegerLiteral || kind == NodeKind::FloatLiteral {
            let location = crate::location::node_sonar_location(tree, i, src);
            out.push(CpdToken { image: String::from_str("NUMBER"), location });
        } else if kind == NodeKind::StringContent {
            let location = match tree.parents[i] {
                Some(p) => {
                    if tree.nodes[p].kind == NodeKind::RawStringLiteral {
                        crate::location::node_sonar_location(tree, p, src)
                    } else {
                        crate::location::node_sonar_location(tree, i, src)
                    }
                },
                None => crate::location::node_sonar_location(tree, i, src),
            };
            out.push(CpdToken { image: String::from_str("STRING"), location });
        } else {
            let image = match range_to_string(src, tree.nodes[i].start_byte, tree.nodes[i].end_byte) {
                Some(s) => s,
                None => String::new(),
            };
            let location = crate::location::node_sonar_location(tree, i, src);
            out.push(CpdToken { image, location });
        }
    }
    proof {
        assert(token_views(out@) =~= token_views(old(out)@) + (if emit {
            spec_leaf_token(nodes, parents, src@, i as int)
        } else {
            Seq::<SpecToken>::empty()
        }));
    }
    let ghost own = if emit {
        spec_leaf_token(nodes, parents, src@, i as int)
    } else {
        Seq::<SpecToken>::empty()
    };
    if !tree.nodes[i].extra {
        let m = tree.nodes[i].children.len();
        let mut k: usize = 0;
        let mut until: Option<usize> = None;
        let ghost full = spec_cpd_children(nodes, parents, src@, i as int, 0, emit, None);
        proof {
            assert(token_views(out@) =~= token_views(old(out)@) + own + full.take(
                full.len() - spec_cpd_children(nodes, parents, src@, i as int, 0, emit, None).len(),
            ));
        }
        while k < m
            invariant
                k <= m,
                m == nodes[i as int].children@.len(),
                token_views(out@) == token_views(old(out)@) + own + full.take(
                    full.len() - spec_cpd_children(
                        nodes,
                        parents,
                        src@,
                        i as int,
                        k as int,
                        emit,
                        until,
                    ).len(),
                ),
                full == full.take(
                    full.len() - spec_cpd_children(
                        nodes,
                        parents,
                        src@,
                        i as int,
                        k as int,
                        emit,
                        until,
                    ).len(),
                ) + spec_cpd_children(nodes, parents, src@, i as int, k as int, emit, until),
            decreases m - k,
        {
            let c = tree.nodes[i].children[k];
            let until_in: Option<usize> = if is_cfg_test_attribute(tree, c, src) {
                match next_named_pos(tree, i, k + 1) {
                    Some(mpos) => Some(mpos),
                    None => until,
                }
            } else {
                until
            };
            let child_emit = emit && until_in.is_none();
            let ghost rest_k = spec_cpd_children(nodes, parents, src@, i as int, k as int, emit, until);
            let ghost child_toks = spec_cpd(nodes, parents, src@, c as int, child_emit);
            cpd_visit(tree, src, c, child_emit, out);
            let until_out: Option<usize> = match until_in {
                Some(mpos) => {
                    if mpos == k {
                        None
                    } else {
                        Some(mpos)
                    }
                },
                None => None,
            };
            proof {
                let rest_k1 = spec_cpd_children(
                    nodes,
                    parents,
                    src@,
                    i as int,
                    k + 1,
                    emit,
                    until_out,
                );
                assert(rest_k =~= child_toks + rest_k1);
                let done_now = full.len() - rest_k1.len();
                assert(full =~= full.take(done_now) + rest_k1);
                assert(token_views(out@) =~= token_views(old(out)@) + own + full.take(done_now));
            }
            until = until_out;
            k = k + 1;
        }
        proof {
            assert(spec_cpd_children(nodes, parents, src@, i as int, m as int, emit, until)
                =~= Seq::<SpecToken>::empty());
            assert(token_views(out@) =~= token_views(old(out)@) + own + full);
        }
    }
    proof {
        assert(token_views(out@) =~= token_views(old(out)@) + spec_cpd(
            nodes,
            parents,
            src@,
            i as int,
            emit,
        ));
    }
}

/// Produces the normalized token stream of the file, in source order.
pub fn calculate_cpd_tokens(tree: &SyntaxTree, source_code: &str) -> (r: Result<
    Vec<CpdToken>,
    AnalyzerError,
>)
    requires
        tree.wf(),
        source_code.spec_bytes().len() == tree.src_len,
    ensures
        r matches Ok(v) ==> token_views(v@) == spec_cpd(
            tree.nodes@,
            tree.parents@,
            source_code.spec_bytes(),
            tree.spec_root(),
            true,
        ),
        r is Ok,
{
    let src = source_code.as_bytes();
    let mut out: Vec<CpdToken> = Vec::new();
    let root = tree.root();
    proof {
        assert(token_views(out@) =~= Seq::<SpecToken>::empty());
    }
    cpd_visit(tree, src, root, true, &mut out);
    proof {
        assert(token_views(out@) =~= spec_cpd(
            tree.nodes@,
            tree.parents@,
            source_code.spec_bytes(),
            tree.spec_root(),
            true,
        ));
    }
    Ok(out)
}

/// The node whose range bounds every span the subtree at `i` emits: for a
/// leaf it is the reported node, else the node itself.
pub open spec fn spec_span_anchor(nodes: Seq<NodeData>, parents: Seq<Option<usize>>, i: int) -> int {
    if nodes[i].children@.len() == 0 {
        spec_token_node(nodes, parents, i)
    } else {
        i
    }
}

/// The node whose span leaf `i`'s token reports: the enclosing raw string
/// for string content inside one, else the leaf itself.
pub open spec fn spec_token_node(nodes: Seq<NodeData>, parents: Seq<Option<usize>>, i: int) -> int {
    if nodes[i].kind == NodeKind::StringContent && (parents[i] matches Some(p) && p < nodes.len()
        && nodes[p as int].kind == NodeKind::RawStringLiteral) {
        parents[i].unwrap() as int
    } else {
        i
    }
}

/// The nodes whose spans the walk's tokens report, in emission order: the
/// recursion mirrors [`spec_cpd`] guard for guard.
pub open spec fn spec_cpd_nodes(
    nodes: Seq<NodeData>,
    parents: Seq<Option<usize>>,
    src: Seq<u8>,
    i: int,
    emit: bool,
) -> Seq<int>
    decreases i, nodes[i].children@.len() + 1,
{
    (if emit && nodes[i].children@.len() == 0 && !nodes[i].missing && !nodes[i].error
        && !nodes[i].extra && nodes[i].kind != NodeKind::SourceFile {
        seq![spec_token_node(nodes, parents, i)]
    } else {
        Seq::empty()
    }) + (if nodes[i].extra {
        Seq::empty()
    } else {
        spec_cpd_nodes_children(nodes, parents, src, i, 0, emit, None)
    })
}

pub open spec fn spec_cpd_nodes_children(
    nodes: Seq<NodeData>,
    parents: Seq<Option<usize>>,
    src: Seq<u8>,
    i: int,
    k: int,
    emit: bool,
    until: Option<usize>,
) -> Seq<int>
    decreases i, nodes[i].children@.len() - k,
{
    if k < 0 || k >= nodes[i].children@.len() {
        Seq::empty()
    } else {
        let c = nodes[i].children@[k] as int;
        let until_in: Option<usize> = if 0 <= c < i && spec_is_cfg_test(nodes, src, c)
            && spec_next_named_pos(nodes, i, k + 1) is Some {
            spec_next_named_pos(nodes, i, k + 1)
        } else {
            until
        };
        let child_emit = emit && until_in is None;
        let toks = if 0 <= c < i {
            spec_cpd_nodes(nodes, parents, src, c, child_emit)
        } else {
            Seq::empty()
        };
        let until_out: Option<usize> = if until_in == Some(k as usize) {
            None
        } else {
            until_in
        };
        toks + spec_cpd_nodes_children(nodes, parents, src, i, k + 1, emit, until_out)
    }
}

/// Each emitted token reports the span of the node that
/// [`spec_cpd_nodes`] lists at the same position.
pub proof fn lemma_cpd_nodes_correspond(
    nodes: Seq<NodeData>,
    parents: Seq<Option<usize>>,
    src: Seq<u8>,
    i: int,
    emit: bool,
)
    ensures
        spec_cpd(nodes, parents, src, i, emit).len() == spec_cpd_nodes(
            nodes,
            parents,
            src,
            i,
            emit,
        ).len(),
        forall|k: int|
            0 <= k < spec_cpd(nodes, parents, src, i, emit).len() ==> (#[trigger] spec_cpd(
                nodes,
                parents,
                src,
                i,
                emit,
            )[k]).location == spec_node_sonar(
                nodes,
                spec_cpd_nodes(nodes, parents, src, i, emit)[k],
                src,
            ),
    decreases i, nodes[i].children@.len() + 1,
{
    lemma_cpd_nodes_correspond_children(nodes, parents, src, i, 0, emit, None);
}

pub proof fn lemma_cpd_nodes_correspond_children(
    nodes: Seq<NodeData>,
    parents: Seq<Option<usize>>,
    src: Seq<u8>,
    i: int,
    k: int,
    emit: bool,
    until: Option<usize>,
)
    ensures
        spec_cpd_children(nodes, parents, src, i, k, emit, until).len() == spec_cpd_nodes_children(
            nodes,
            parents,
            src,
            i,
            k,
            emit,
            until,
        ).len(),
        forall|t: int|
            0 <= t < spec_cpd_children(nodes, parents, src, i, k, emit, until).len() ==> (
            #[trigger] spec_cpd_children(nodes, parents, src, i, k, emit, until)[t]).location
                == spec_node_sonar(
                nodes,
                spec_cpd_nodes_children(nodes, parents, src, i, k, emit, until)[t],
                src,
            ),
    decreases i, nodes[i].children@.len() - k,
{
    if 0 <= k < nodes[i].children@.len() {
        let c = nodes[i].children@[k] as int;
        let until_in: Option<usize> = if 0 <= c < i && spec_is_cfg_test(nodes, src, c)
            && spec_next_named_pos(nodes, i, k + 1) is Some {
            spec_next_named_pos(nodes, i, k + 1)
        } else {
            until
        };
        let child_emit = emit && until_in is None;
        let until_out: Option<usize> = if until_in == Some(k as usize) {
            None
        } else {
            until_in
        };
        if 0 <= c < i {
            lemma_cpd_nodes_correspond(nodes, parents, src, c, child_emit);
        }
        lemma_cpd_nodes_correspond_children(nodes, parents, src, i, k + 1, emit, until_out);
    }
}

/// The token spans of `s` are non-overlapping, in ascending source order.
pub open spec fn spans_sorted(nodes: Seq<NodeData>, s: Seq<int>) -> bool {
    forall|t: int|
        0 <= t && t + 1 < s.len() ==> nodes[#[trigger] s[t]].end_byte <= nodes[s[t + 1]].start_byte
}

/// Every span of `s` is a node below `len` whose bytes lie in `[lo, hi]`.
pub open spec fn spans_within(nodes: Seq<NodeData>, s: Seq<int>, lo: int, hi: int) -> bool {
    forall|t: int|
        0 <= t < s.len() ==> 0 <= #[trigger] s[t] < nodes.len() && lo <= nodes[s[t]].start_byte
            && nodes[s[t]].end_byte <= hi
}

#[verifier::rlimit(100)]
proof fn lemma_spans_concat(nodes: Seq<NodeData>, a: Seq<int>, b: Seq<int>, lo: int, mid: int, hi: int)
    requires
        lo <= mid <= hi,
        spans_sorted(nodes, a),
        spans_sorted(nodes, b),
        spans_within(nodes, a, lo, mid),
        spans_within(nodes, b, mid, hi),
    ensures
        spans_sorted(nodes, a + b),
        spans_within(nodes, a + b, lo, hi),
{
    assert forall|t: int| 0 <= t && t + 1 < (a + b).len() implies nodes[#[trigger] (a + b)[t]].end_byte
        <= nodes[(a + b)[t + 1]].start_byte by {
        if t + 1 < a.len() {
            assert((a + b)[t] == a[t] && (a + b)[t + 1] == a[t + 1]);
        } else if t >= a.len() {
            assert((a + b)[t] == b[t - a.len()] && (a + b)[t + 1] == b[t + 1 - a.len()]);
        } else {
            assert((a + b)[t] == a[t] && (a + b)[t + 1] == b[t + 1 - a.len()]);
        }
    }
    assert forall|t: int| 0 <= t < (a + b).len() implies 0 <= #[trigger] (a + b)[t] < nodes.len()
        && lo <= nodes[(a + b)[t]].start_byte && nodes[(a + b)[t]].end_byte <= hi by {
        if t < a.len() {
            assert((a + b)[t] == a[t]);
        } else {
            assert((a + b)[t] == b[t - a.len()]);
        }
    }
}

/// Law: the spans of the tokens the walk emits are non-overlapping and
/// strictly ascending in source order. It holds of every tree whose parent
/// table lists each child under its parent and whose raw string literals
/// hold a single child, as the grammar produces them.
#[verifier::rlimit(100)]
pub proof fn lemma_cpd_spans_sorted(
    nodes: Seq<NodeData>,
    parents: Seq<Option<usize>>,
    src: Seq<u8>,
    i: int,
    emit: bool,
)
    requires
        forall|a: int| 0 <= a < nodes.len() ==> #[trigger] crate::tree::wf_children_shape(nodes, a),
        forall|a: int| 0 <= a < nodes.len() ==> #[trigger] crate::tree::wf_bytes_within(nodes, a),
        forall|a: int| 0 <= a < nodes.len() ==> #[trigger] crate::tree::wf_bytes_order(nodes, a),
        forall|a: int|
            0 <= a < nodes.len() ==> (#[trigger] nodes[a].start_byte) <= nodes[a].end_byte,
        crate::tree::wf_parents_consistent(nodes, parents),
        crate::tree::wf_raw_strings_lone(nodes),
        nodes.len() <= usize::MAX,
        0 <= i < nodes.len(),
    ensures
        spans_sorted(nodes, spec_cpd_nodes(nodes, parents, src, i, emit)),
        spans_within(
            nodes,
            spec_cpd_nodes(nodes, parents, src, i, emit),
            nodes[spec_span_anchor(nodes, parents, i)].start_byte as int,
            nodes[spec_span_anchor(nodes, parents, i)].end_byte as int,
        ),
    decreases i, nodes[i].children@.len() + 1,
{
    let s = spec_cpd_nodes(nodes, parents, src, i, emit);
    let j = spec_span_anchor(nodes, parents, i);
    let m = nodes[i].children@.len() as int;
    if nodes[i].children@.len() == 0 || nodes[i].extra {
        // at most the node's own token, which reports the anchor's span
        assert(spans_sorted(nodes, s));
        assert(spans_within(nodes, s, nodes[j].start_byte as int, nodes[j].end_byte as int));
    } else {
        // an inner node emits nothing of its own
        assert(s =~= spec_cpd_nodes_children(nodes, parents, src, i, 0, emit, None));
        lemma_cpd_children_spans(nodes, parents, src, i, 0, emit, None);
        let c0 = nodes[i].children@[0] as int;
        assert(crate::tree::wf_children_shape(nodes, i));
        assert(crate::tree::wf_bytes_within(nodes, i));
        assert(nodes[i].start_byte <= nodes[c0].start_byte);
    }
}

/// The anchor of a node whose parent is not a raw string is the node
/// itself.
proof fn lemma_anchor_plain(nodes: Seq<NodeData>, parents: Seq<Option<usize>>, c: int, i: int)
    requires
        nodes.len() <= usize::MAX,
        0 <= c < nodes.len(),
        0 <= i < nodes.len(),
        parents[c] == Some(i as usize),
        nodes[i].kind != NodeKind::RawStringLiteral,
    ensures
        spec_span_anchor(nodes, parents, c) == c,
{
}

/// The anchor of a raw string's child is the child or the raw string.
proof fn lemma_anchor_raw(nodes: Seq<NodeData>, parents: Seq<Option<usize>>, c: int, i: int)
    requires
        nodes.len() <= usize::MAX,
        0 <= c < nodes.len(),
        0 <= i < nodes.len(),
        parents[c] == Some(i as usize),
    ensures
        spec_span_anchor(nodes, parents, c) == c || spec_span_anchor(nodes, parents, c) == i,
{
}

/// One step of the ordering law: a child's sorted spans followed by the
/// sorted spans of the later children.
#[verifier::rlimit(100)]
proof fn lemma_spans_step(
    nodes: Seq<NodeData>,
    i: int,
    c: int,
    c2: int,
    toks: Seq<int>,
    rest: Seq<int>,
    last: bool,
)
    requires
        0 <= i < nodes.len(),
        0 <= c < nodes.len(),
        nodes[i].start_byte <= nodes[c].start_byte,
        nodes[c].end_byte <= nodes[i].end_byte,
        nodes[c].start_byte <= nodes[c].end_byte,
        spans_sorted(nodes, toks),
        spans_within(nodes, toks, nodes[c].start_byte as int, nodes[c].end_byte as int),
        spans_sorted(nodes, rest),
        !last ==> 0 <= c2 < nodes.len() && nodes[c].end_byte <= nodes[c2].start_byte && nodes[c2].start_byte
            <= nodes[i].end_byte && spans_within(
            nodes,
            rest,
            nodes[c2].start_byte as int,
            nodes[i].end_byte as int,
        ),
        last ==> rest == Seq::<int>::empty(),
    ensures
        spans_sorted(nodes, toks + rest),
        spans_within(nodes, toks + rest, nodes[c].start_byte as int, nodes[i].end_byte as int),
{
    if last {
        lemma_spans_concat(
            nodes,
            toks,
            rest,
            nodes[c].start_byte as int,
            nodes[c].end_byte as int,
            nodes[i].end_byte as int,
        );
    } else {
        lemma_spans_concat(
            nodes,
            toks,
            rest,
            nodes[c].start_byte as int,
            nodes[c2].start_byte as int,
            nodes[i].end_byte as int,
        );
    }
}

/// The children part of the ordering law: from child `k` on, the emitted
/// spans are sorted and lie between the region's start and the parent's
/// end. For a raw string literal the region starts at the parent itself,
/// whose whole span its content reports.
#[verifier::rlimit(100)]
#[verifier::spinoff_prover]
proof fn lemma_cpd_children_spans(
    nodes: Seq<NodeData>,
    parents: Seq<Option<usize>>,
    src: Seq<u8>,
    i: int,
    k: int,
    emit: bool,
    until: Option<usize>,
)
    requires
        forall|a: int| 0 <= a < nodes.len() ==> #[trigger] crate::tree::wf_children_shape(nodes, a),
        forall|a: int| 0 <= a < nodes.len() ==> #[trigger] crate::tree::wf_bytes_within(nodes, a),
        forall|a: int| 0 <= a < nodes.len() ==> #[trigger] crate::tree::wf_bytes_order(nodes, a),
        forall|a: int|
            0 <= a < nodes.len() ==> (#[trigger] nodes[a].start_byte) <= nodes[a].end_byte,
        crate::tree::wf_parents_consistent(nodes, parents),
        crate::tree::wf_raw_strings_lone(nodes),
        nodes.len() <= usize::MAX,
        0 <= i < nodes.len(),
        0 <= k,
    ensures
        spans_sorted(nodes, spec_cpd_nodes_children(nodes, parents, src, i, k, emit, until)),
        k < nodes[i].children@.len() ==> spans_within(
            nodes,
            spec_cpd_nodes_children(nodes, parents, src, i, k, emit, until),
            if nodes[i].kind == NodeKind::RawStringLiteral {
                nodes[i].start_byte as int
            } else {
                nodes[nodes[i].children@[k] as int].start_byte as int
            },
            nodes[i].end_byte as int,
        ),
    decreases i, nodes[i].children@.len() - k,
{
    if k < nodes[i].children@.len() {
        let c = nodes[i].children@[k] as int;
        let until_in: Option<usize> = if 0 <= c < i && spec_is_cfg_test(nodes, src, c)
            && spec_next_named_pos(nodes, i, k + 1) is Some {
            spec_next_named_pos(nodes, i, k + 1)
        } else {
            until
        };
        let child_emit = emit && until_in is None;
        let until_out: Option<usize> = if until_in == Some(k as usize) {
            None
        } else {
            until_in
        };
        assert(crate::tree::wf_children_shape(nodes, i));
        assert(crate::tree::wf_bytes_within(nodes, i));
        assert(crate::tree::wf_bytes_order(nodes, i));
        assert(0 <= c < i);
        lemma_cpd_spans_sorted(nodes, parents, src, c, child_emit);
        lemma_cpd_children_spans(nodes, parents, src, i, k + 1, emit, until_out);
        let toks = spec_cpd_nodes(nodes, parents, src, c, child_emit);
        let rest = spec_cpd_nodes_children(nodes, parents, src, i, k + 1, emit, until_out);
        let jc = spec_span_anchor(nodes, parents, c);
        assert(parents[c] == Some(i as usize));
        if nodes[i].kind == NodeKind::RawStringLiteral {
            // at most one child, so `c` is it and nothing follows
            assert(nodes[i].children@.len() == 1 && k == 0);
            assert(rest =~= Seq::<int>::empty());
            lemma_anchor_raw(nodes, parents, c, i);
            assert(jc == c || jc == i);
            lemma_spans_step(nodes, i, jc, 0, toks, rest, true);
        } else {
            // the reported node is the child itself
            lemma_anchor_plain(nodes, parents, c, i);
            assert(jc == c);
            if k + 1 < nodes[i].children@.len() {
                let c2 = nodes[i].children@[k + 1] as int;
                assert(0 <= c2 < i);
                lemma_spans_step(nodes, i, c, c2, toks, rest, false);
            } else {
                assert(rest =~= Seq::<int>::empty());
                lemma_spans_step(nodes, i, c, 0, toks, rest, true);
            }
        }
    }
}

/// Law: for any well-formed tree, the byte spans of the nodes that the
/// emitted tokens report are non-overlapping and ascending in source order;
/// the tokens themselves carry exactly those spans' locations, by
/// [`lemma_cpd_nodes_correspond`].
pub proof fn lemma_cpd_tokens_ordered(t: crate::tree::SyntaxTree, src: Seq<u8>)
    requires
        t.wf(),
    ensures
        spans_sorted(t.nodes@, spec_cpd_nodes(t.nodes@, t.parents@, src, t.spec_root(), true)),
{
    let nodes = t.nodes@;
    let parents = t.parents@;
    assert forall|a: int|
        0 <= a < nodes.len() implies #[trigger] crate::tree::wf_children_shape(nodes, a) by {
        assert(crate::tree::wf_node(nodes, parents, t.src_len, t.n_lines, a));
    }
    assert forall|a: int|
        0 <= a < nodes.len() implies #[trigger] crate::tree::wf_bytes_within(nodes, a) by {
        assert(crate::tree::wf_node_bytes(nodes, a));
    }
    assert forall|a: int|
        0 <= a < nodes.len() implies #[trigger] crate::tree::wf_bytes_order(nodes, a) by {
        assert(crate::tree::wf_node_bytes(nodes, a));
    }
    assert forall|a: int|
        0 <= a < nodes.len() implies (#[trigger] nodes[a].start_byte) <= nodes[a].end_byte by {
        assert(crate::tree::wf_node(nodes, parents, t.src_len, t.n_lines, a));
    }
    lemma_cpd_spans_sorted(nodes, parents, src, t.spec_root(), true);
}

} // verus!
