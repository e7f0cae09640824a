//! The syntax tree model.
//!
//! A parsed file is held as an arena of plain node records in bottom-up
//! (post-order) order: every child's index is smaller than its parent's. The
//! well-formedness predicate [`SyntaxTree::wf`] records exactly the facts the
//! analyzers rely on; a freshly parsed tree is checked against it before any
//! analysis runs.
use vstd::prelude::*;

verus! {

use crate::text::{SRC_LIMIT, str_eq};

/// Hard cap on the number of nodes of one tree; keeps all derived counts
/// inside the fixed-width integer types.
pub const MAX_NODES: usize = 0xFFF_FFFF;

/// Errors surfaced by the analysis.
#[derive(Debug)]
pub enum AnalyzerError {
    /// The current file cannot be analyzed; later files still can.
    FileError(String),
    /// The whole process is broken (parser initialization, configuration).
    GlobalError(String),
}

/// The node kinds the analyzers distinguish; every other kind is `Other`.
#[derive(Clone, Copy, Debug, PartialEq, Eq, Structural)]
pub enum NodeKind {
    SourceFile,
    FunctionItem,
    IfExpression,
    ElseClause,
    WhileExpression,
    LoopExpression,
    ForExpression,
    MatchExpression,
    MatchArm,
    Label,
    BinaryExpression,
    ClosureExpression,
    BreakExpression,
    ContinueExpression,
    LineComment,
    BlockComment,
    StructItem,
    EnumItem,
    ExpressionStatement,
    LetDeclaration,
    EmptyStatement,
    IntegerLiteral,
    FloatLiteral,
    StringContent,
    RawStringLiteral,
    AttributeItem,
    Attribute,
    Identifier,
    Block,
    AmpAmp,
    PipePipe,
    Other,
}

/// The grammar field names the analyzers distinguish.
#[derive(Clone, Copy, Debug, PartialEq, Eq, Structural)]
pub enum FieldName {
    NoField,
    Alternative,
    Operator,
    Left,
    Right,
    Name,
    Arguments,
    Value,
    Body,
    OtherField,
}

/// One node of the parsed tree, as plain values.
pub struct NodeData {
    pub kind: NodeKind,
    pub field: FieldName,
    pub start_byte: usize,
    pub end_byte: usize,
    pub start_row: usize,
    pub start_col: usize,
    pub end_row: usize,
    pub end_col: usize,
    pub named: bool,
    pub missing: bool,
    pub error: bool,
    pub extra: bool,
    /// Indices of the children, in source order; all smaller than the node's
    /// own index.
    pub children: Vec<usize>,
    /// For a missing node, the parser's S-expression rendering.
    pub sexp: Option<String>,
}

/// A parsed file: the node arena in post-order, the parent of each node, and
/// the extent of the source the tree was built from.
pub struct SyntaxTree {
    pub ts: tree_sitter::Tree,
    pub nodes: Vec<NodeData>,
    pub parents: Vec<Option<usize>>,
    pub src_len: usize,
    pub n_lines: usize,
}

/// Shape of a node's child list: all indices smaller than the node's own,
/// strictly ascending.
pub open spec fn wf_children_shape(nodes: Seq<NodeData>, i: int) -> bool {
    let n = nodes[i];
    &&& forall|k: int| 0 <= k < n.children@.len() ==> (#[trigger] n.children@[k]) < i
    &&& forall|k: int|
        0 <= k && k + 1 < n.children@.len() ==> (#[trigger] n.children@[k]) < n.children@[k + 1]
}

/// Numeric bounds of one node record.
pub open spec fn wf_node_bounds(n: NodeData, src_len: usize, n_lines: usize) -> bool {
    &&& n.start_byte <= n.end_byte <= src_len
    &&& n.start_col <= n.start_byte
    &&& n.end_col <= n.end_byte
    &&& n.start_row <= n.end_row < n_lines
    &&& (n.start_row < n.end_row || n.start_col <= n.end_col)
}

/// The parent link of a node points above it, to a node that lists it as a
/// child.
pub open spec fn wf_parent_link(
    nodes: Seq<NodeData>,
    parents: Seq<Option<usize>>,
    i: int,
) -> bool {
    parents[i] matches Some(p) ==> i < p < nodes.len() && nodes[p as int].children@.contains(
        i as usize,
    )
}

/// Every child is listed by the parent table as a child of exactly the node
/// that holds it: the converse direction of [`wf_parent_link`].
pub open spec fn wf_parents_consistent(nodes: Seq<NodeData>, parents: Seq<Option<usize>>) -> bool {
    forall|a: int, k: int|
        0 <= a < nodes.len() && 0 <= k < nodes[a].children@.len() ==> parents[(
        #[trigger] nodes[a].children@[k]) as int] == Some(a as usize)
}

/// A raw string literal holds at most its content child; its delimiters are
/// not part of the tree.
pub open spec fn wf_raw_strings_lone(nodes: Seq<NodeData>) -> bool {
    forall|a: int|
        0 <= a < nodes.len() && (#[trigger] nodes[a].kind) == NodeKind::RawStringLiteral
            ==> nodes[a].children@.len() <= 1
}

/// Structural well-formedness of one node of an arena: the shape of its
/// child list, its parent link, and its numeric bounds.
pub open spec fn wf_node(
    nodes: Seq<NodeData>,
    parents: Seq<Option<usize>>,
    src_len: usize,
    n_lines: usize,
    i: int,
) -> bool {
    &&& wf_children_shape(nodes, i)
    &&& wf_node_bounds(nodes[i], src_len, n_lines)
    &&& wf_parent_link(nodes, parents, i)
}

/// The children's byte ranges lie inside the parent's range.
pub open spec fn wf_bytes_within(nodes: Seq<NodeData>, i: int) -> bool {
    let n = nodes[i];
    forall|k: int|
        0 <= k < n.children@.len() ==> n.start_byte <= nodes[(#[trigger] n.children@[k]) as int].start_byte
            && nodes[n.children@[k] as int].end_byte <= n.end_byte
}

/// Consecutive children's byte ranges do not overlap, in source order.
pub open spec fn wf_bytes_order(nodes: Seq<NodeData>, i: int) -> bool {
    let n = nodes[i];
    forall|k: int|
        0 <= k && k + 1 < n.children@.len() ==> nodes[(#[trigger] n.children@[k]) as int].end_byte
            <= nodes[n.children@[k + 1] as int].start_byte
}

/// Byte-range discipline of one node: the children's ranges lie inside the
/// parent's range and do not overlap, in source order.
pub open spec fn wf_node_bytes(nodes: Seq<NodeData>, i: int) -> bool {
    wf_bytes_within(nodes, i) && wf_bytes_order(nodes, i)
}

/// The number of nodes of the subtree rooted at `i`, going by the child
/// lists: one for the node itself plus the sizes of the children's subtrees.
/// A child index that is not below its parent's contributes nothing; a
/// well-formed arena has none.
pub open spec fn spec_size(nodes: Seq<NodeData>, i: int) -> int
    decreases i, nodes[i].children@.len() + 1,
{
    1 + spec_size_children(nodes, i, nodes[i].children@.len() as int)
}

/// The summed sizes of the first `k` children of node `i`.
pub open spec fn spec_size_children(nodes: Seq<NodeData>, i: int, k: int) -> int
    decreases i, k,
{
    if k <= 0 {
        0
    } else {
        spec_size_children(nodes, i, k - 1) + {
            let c = nodes[i].children@[k - 1] as int;
            if 0 <= c < i {
                spec_size(nodes, c)
            } else {
                0
            }
        }
    }
}

pub proof fn lemma_size_children_nonneg(nodes: Seq<NodeData>, i: int, k: int)
    ensures
        spec_size_children(nodes, i, k) >= 0,
    decreases i, k + 1,
{
    if k > 0 {
        lemma_size_children_nonneg(nodes, i, k - 1);
        let c = nodes[i].children@[k - 1] as int;
        if 0 <= c < i {
            lemma_size_nonneg(nodes, c);
        }
    }
}

/// The summed sizes of a node's first children never shrink as more
/// children are added.
pub proof fn lemma_size_children_mono(nodes: Seq<NodeData>, i: int, k1: int, k2: int)
    requires
        0 <= k1 <= k2,
    ensures
        spec_size_children(nodes, i, k1) <= spec_size_children(nodes, i, k2),
    decreases k2,
{
    if k1 < k2 {
        lemma_size_children_mono(nodes, i, k1, k2 - 1);
        let c = nodes[i].children@[k2 - 1] as int;
        if 0 <= c < i {
            lemma_size_nonneg(nodes, c);
        }
    }
}

pub proof fn lemma_size_nonneg(nodes: Seq<NodeData>, i: int)
    ensures
        spec_size(nodes, i) >= 1,
    decreases i, nodes[i].children@.len() + 2,
{
    lemma_size_children_nonneg(nodes, i, nodes[i].children@.len() as int);
}

/// Structural well-formedness of a whole arena.
pub open spec fn wf_arena(
    nodes: Seq<NodeData>,
    parents: Seq<Option<usize>>,
    src_len: usize,
    n_lines: usize,
) -> bool {
    &&& 1 <= nodes.len() <= MAX_NODES
    &&& parents.len() == nodes.len()
    &&& src_len <= SRC_LIMIT
    &&& 1 <= n_lines <= src_len + 1
    &&& forall|i: int| 0 <= i < nodes.len() ==> wf_node(nodes, parents, src_len, n_lines, i)
    &&& forall|i: int| 0 <= i < nodes.len() ==> wf_node_bytes(nodes, i)
    &&& forall|i: int| 0 <= i < nodes.len() ==> spec_size(nodes, i) <= nodes.len()
    &&& wf_parents_consistent(nodes, parents)
    &&& wf_raw_strings_lone(nodes)
}

impl SyntaxTree {
    /// The facts every analyzer relies on.
    pub open spec fn wf(self) -> bool {
        wf_arena(self.nodes@, self.parents@, self.src_len, self.n_lines)
    }

    /// The tree was built from this source text.
    pub open spec fn for_source(self, src: Seq<u8>) -> bool {
        &&& self.src_len == src.len()
        &&& self.n_lines == crate::text::spec_line_count(src)
    }

    pub open spec fn spec_root(self) -> int {
        self.nodes.len() - 1
    }

    /// The root node: the last node in post-order.
    pub fn root(&self) -> (r: usize)
        requires
            self.wf(),
        ensures
            r == self.spec_root(),
    {
        self.nodes.len() - 1
    }

    pub(crate) fn make(
        ts: tree_sitter::Tree,
        nodes: Vec<NodeData>,
        parents: Vec<Option<usize>>,
        src_len: usize,
        n_lines: usize,
    ) -> (r: SyntaxTree)
        ensures
            r.nodes == nodes,
            r.parents == parents,
            r.src_len == src_len,
            r.n_lines == n_lines,
    {
        SyntaxTree { ts, nodes, parents, src_len, n_lines }
    }

    pub(crate) fn ts_tree(&self) -> &tree_sitter::Tree {
        &self.ts
    }

    /// The `k`-th child of node `i`, if it exists.
    pub fn child(&self, i: usize, k: usize) -> (r: Option<usize>)
        requires
            self.wf(),
            i < self.nodes.len(),
        ensures
            k < self.nodes[i as int].children.len() ==> r == Some(
                self.nodes[i as int].children[k as int],
            ),
            k >= self.nodes[i as int].children.len() ==> r is None,
            r matches Some(c) ==> c < i,
    {
        proof {
            assert(wf_node(self.nodes@, self.parents@, self.src_len, self.n_lines, i as int));
        }
        if k < self.nodes[i].children.len() {
            Some(self.nodes[i].children[k])
        } else {
            None
        }
    }
}

/// The first child of `node` whose kind is `kind`, scanning from child `k`.
pub open spec fn spec_child_of_kind_from(
    nodes: Seq<NodeData>,
    node: int,
    kind: NodeKind,
    k: int,
) -> Option<usize>
    decreases nodes[node].children.len() - k,
{
    if k < 0 || k >= nodes[node].children.len() {
        None
    } else if nodes[nodes[node].children[k] as int].kind == kind {
        Some(nodes[node].children[k])
    } else {
        spec_child_of_kind_from(nodes, node, kind, k + 1)
    }
}

pub open spec fn spec_child_of_kind(nodes: Seq<NodeData>, node: int, kind: NodeKind) -> Option<
    usize,
> {
    spec_child_of_kind_from(nodes, node, kind, 0)
}

/// Returns the first child of the given kind of a node, if it exists.
#[verifier::loop_isolation(false)]
#[verifier::rlimit(60)]
pub fn child_of_kind(tree: &SyntaxTree, node: usize, kind: NodeKind) -> (r: Option<usize>)
    requires
        tree.wf(),
        node < tree.nodes.len(),
    ensures
        r == spec_child_of_kind(tree.nodes@, node as int, kind),
        r matches Some(c) ==> c < node && tree.parents@[c as int] == Some(node),
{
    let n_children = tree.nodes[node].children.len();
    let mut k: usize = 0;
    while k < n_children
        invariant
            k <= n_children,
            spec_child_of_kind(tree.nodes@, node as int, kind) == spec_child_of_kind_from(
                tree.nodes@,
                node as int,
                kind,
                k as int,
            ),
        decreases n_children - k,
    {
        proof {
            assert(wf_node(tree.nodes@, tree.parents@, tree.src_len, tree.n_lines, node as int));
        }
        let c = tree.nodes[node].children[k];
        if tree.nodes[c].kind == kind {
            proof {
                assert(spec_child_of_kind_from(tree.nodes@, node as int, kind, k as int) == Some(
                    c,
                ));
            }
            return Some(c);
        }
        proof {
            assert(spec_child_of_kind_from(tree.nodes@, node as int, kind, k as int)
                == spec_child_of_kind_from(tree.nodes@, node as int, kind, k + 1));
        }
        k = k + 1;
    }
    None
}

/// The first child of `node` whose field name is `field`.
pub open spec fn spec_child_by_field_from(
    nodes: Seq<NodeData>,
    node: int,
    field: FieldName,
    k: int,
) -> Option<usize>
    decreases nodes[node].children.len() - k,
{
    if k < 0 || k >= nodes[node].children.len() {
        None
    } else if nodes[nodes[node].children[k] as int].field == field {
        Some(nodes[node].children[k])
    } else {
        spec_child_by_field_from(nodes, node, field, k + 1)
    }
}

pub open spec fn spec_child_by_field(nodes: Seq<NodeData>, node: int, field: FieldName) -> Option<
    usize,
> {
    spec_child_by_field_from(nodes, node, field, 0)
}

/// Returns the first child attached under the given grammar field.
#[verifier::loop_isolation(false)]
#[verifier::rlimit(60)]
pub fn child_by_field(tree: &SyntaxTree, node: usize, field: FieldName) -> (r: Option<usize>)
    requires
        tree.wf(),
        node < tree.nodes.len(),
    ensures
        r == spec_child_by_field(tree.nodes@, node as int, field),
        r matches Some(c) ==> c < node,
{
    let n_children = tree.nodes[node].children.len();
    let mut k: usize = 0;
    while k < n_children
        invariant
            k <= n_children,
            spec_child_by_field(tree.nodes@, node as int, field) == spec_child_by_field_from(
                tree.nodes@,
                node as int,
                field,
                k as int,
            ),
        decreases n_children - k,
    {
        proof {
            assert(wf_node(tree.nodes@, tree.parents@, tree.src_len, tree.n_lines, node as int));
        }
        let c = tree.nodes[node].children[k];
        if tree.nodes[c].field == field {
            proof {
                assert(spec_child_by_field_from(tree.nodes@, node as int, field, k as int) == Some(
                    c,
                ));
            }
            return Some(c);
        }
        proof {
            assert(spec_child_by_field_from(tree.nodes@, node as int, field, k as int)
                == spec_child_by_field_from(tree.nodes@, node as int, field, k + 1));
        }
        k = k + 1;
    }
    None
}

/// A field lookup returns one of the node's children, which in a shapely
/// arena lies below the node.
pub proof fn lemma_child_by_field_bound(nodes: Seq<NodeData>, node: int, field: FieldName, k: int)
    requires
        wf_children_shape(nodes, node),
    ensures
        spec_child_by_field_from(nodes, node, field, k) matches Some(c) ==> c < node,
    decreases nodes[node].children@.len() - k,
{
    if 0 <= k < nodes[node].children@.len() {
        lemma_child_by_field_bound(nodes, node, field, k + 1);
    }
}

/// The first named child of `node`, scanning from child `k`.
pub open spec fn spec_named_child_from(nodes: Seq<NodeData>, node: int, k: int) -> Option<usize>
    decreases nodes[node].children.len() - k,
{
    if k < 0 || k >= nodes[node].children.len() {
        None
    } else if nodes[nodes[node].children[k] as int].named {
        Some(nodes[node].children[k])
    } else {
        spec_named_child_from(nodes, node, k + 1)
    }
}

pub open spec fn spec_first_named_child(nodes: Seq<NodeData>, node: int) -> Option<usize> {
    spec_named_child_from(nodes, node, 0)
}

/// Returns the first named child of a node, if it exists.
#[verifier::loop_isolation(false)]
#[verifier::rlimit(60)]
pub fn first_named_child(tree: &SyntaxTree, node: usize) -> (r: Option<usize>)
    requires
        tree.wf(),
        node < tree.nodes.len(),
    ensures
        r == spec_first_named_child(tree.nodes@, node as int),
        r matches Some(c) ==> c < node,
{
    let n_children = tree.nodes[node].children.len();
    let mut k: usize = 0;
    while k < n_children
        invariant
            k <= n_children,
            spec_first_named_child(tree.nodes@, node as int) == spec_named_child_from(
                tree.nodes@,
                node as int,
                k as int,
            ),
        decreases n_children - k,
    {
        proof {
            assert(wf_node(tree.nodes@, tree.parents@, tree.src_len, tree.n_lines, node as int));
        }
        let c = tree.nodes[node].children[k];
        if tree.nodes[c].named {
            proof {
                assert(spec_named_child_from(tree.nodes@, node as int, k as int) == Some(c));
            }
            return Some(c);
        }
        proof {
            assert(spec_named_child_from(tree.nodes@, node as int, k as int)
                == spec_named_child_from(tree.nodes@, node as int, k + 1));
        }
        k = k + 1;
    }
    None
}

/// Maps a grammar kind string to the kinds the analyzers distinguish.
pub open spec fn spec_kind_of(s: Seq<char>) -> NodeKind {
    if s == "source_file"@ {
        NodeKind::SourceFile
    } else if s == "function_item"@ {
        NodeKind::FunctionItem
    } else if s == "if_expression"@ {
        NodeKind::IfExpression
    } else if s == "else_clause"@ {
        NodeKind::ElseClause
    } else if s == "while_expression"@ {
        NodeKind::WhileExpression
    } else if s == "loop_expression"@ {
        NodeKind::LoopExpression
    } else if s == "for_expression"@ {
        NodeKind::ForExpression
    } else if s == "match_expression"@ {
        NodeKind::MatchExpression
    } else if s == "match_arm"@ {
        NodeKind::MatchArm
    } else if s == "label"@ {
        NodeKind::Label
    } else if s == "binary_expression"@ {
        NodeKind::BinaryExpression
    } else if s == "closure_expression"@ {
        NodeKind::ClosureExpression
    } else if s == "break_expression"@ {
        NodeKind::BreakExpression
    } else if s == "continue_expression"@ {
        NodeKind::ContinueExpression
    } else if s == "line_comment"@ {
        NodeKind::LineComment
    } else if s == "block_comment"@ {
        NodeKind::BlockComment
    } else if s == "struct_item"@ {
        NodeKind::StructItem
    } else if s == "enum_item"@ {
        NodeKind::EnumItem
    } else if s == "expression_statement"@ {
        NodeKind::ExpressionStatement
    } else if s == "let_declaration"@ {
        NodeKind::LetDeclaration
    } else if s == "empty_statement"@ {
        NodeKind::EmptyStatement
    } else if s == "integer_literal"@ {
        NodeKind::IntegerLiteral
    } else if s == "float_literal"@ {
        NodeKind::FloatLiteral
    } else if s == "string_content"@ {
        NodeKind::StringContent
    } else if s == "raw_string_literal"@ {
        NodeKind::RawStringLiteral
    } else if s == "attribute_item"@ {
        NodeKind::AttributeItem
    } else if s == "attribute"@ {
        NodeKind::Attribute
    } else if s == "identifier"@ {
        NodeKind::Identifier
    } else if s == "block"@ {
        NodeKind::Block
    } else if s == "&&"@ {
        NodeKind::AmpAmp
    } else if s == "||"@ {
        NodeKind::PipePipe
    } else {
        NodeKind::Other
    }
}

/// Classifies a grammar kind string.
pub fn kind_of(s: &str) -> (r: NodeKind)
    ensures
        r == spec_kind_of(s@),
{
    if str_eq(s, "source_file") {
        NodeKind::SourceFile
    } else if str_eq(s, "function_item") {
        NodeKind::FunctionItem
    } else if str_eq(s, "if_expression") {
        NodeKind::IfExpression
    } else if str_eq(s, "else_clause") {
        NodeKind::ElseClause
    } else if str_eq(s, "while_expression") {
        NodeKind::WhileExpression
    } else if str_eq(s, "loop_expression") {
        NodeKind::LoopExpression
    } else if str_eq(s, "for_expression") {
        NodeKind::ForExpression
    } else if str_eq(s, "match_expression") {
        NodeKind::MatchExpression
    } else if str_eq(s, "match_arm") {
        NodeKind::MatchArm
    } else if str_eq(s, "label") {
        NodeKind::Label
    } else if str_eq(s, "binary_expression") {
        NodeKind::BinaryExpression
    } else if str_eq(s, "closure_expression") {
        NodeKind::ClosureExpression
    } else if str_eq(s, "break_expression") {
        NodeKind::BreakExpression
    } else if str_eq(s, "continue_expression") {
        NodeKind::ContinueExpression
    } else if str_eq(s, "line_comment") {
        NodeKind::LineComment
    } else if str_eq(s, "block_comment") {
        NodeKind::BlockComment
    } else if str_eq(s, "struct_item") {
        NodeKind::StructItem
    } else if str_eq(s, "enum_item") {
        NodeKind::EnumItem
    } else if str_eq(s, "expression_statement") {
        NodeKind::ExpressionStatement
    } else if str_eq(s, "let_declaration") {
        NodeKind::LetDeclaration
    } else if str_eq(s, "empty_statement") {
        NodeKind::EmptyStatement
    } else if str_eq(s, "integer_literal") {
        NodeKind::IntegerLiteral
    } else if str_eq(s, "float_literal") {
        NodeKind::FloatLiteral
    } else if str_eq(s, "string_content") {
        NodeKind::StringContent
    } else if str_eq(s, "raw_string_literal") {
        NodeKind::RawStringLiteral
    } else if str_eq(s, "attribute_item") {
        NodeKind::AttributeItem
    } else if str_eq(s, "attribute") {
        NodeKind::Attribute
    } else if str_eq(s, "identifier") {
        NodeKind::Identifier
    } else if str_eq(s, "block") {
        NodeKind::Block
    } else if str_eq(s, "&&") {
        NodeKind::AmpAmp
    } else if str_eq(s, "||") {
        NodeKind::PipePipe
    } else {
        NodeKind::Other
    }
}

/// Maps a grammar field name to the fields the analyzers distinguish.
pub open spec fn spec_field_of(s: Option<Seq<char>>) -> FieldName {
    match s {
        Option::None => FieldName::NoField,
        Option::Some(s) => {
            if s == "alternative"@ {
                FieldName::Alternative
            } else if s == "operator"@ {
                FieldName::Operator
            } else if s == "left"@ {
                FieldName::Left
            } else if s == "right"@ {
                FieldName::Right
            } else if s == "name"@ {
                FieldName::Name
            } else if s == "arguments"@ {
                FieldName::Arguments
            } else if s == "value"@ {
                FieldName::Value
            } else if s == "body"@ {
                FieldName::Body
            } else {
                FieldName::OtherField
            }
        },
    }
}

/// Classifies a grammar field name.
pub fn field_of(s: &Option<String>) -> (r: FieldName)
    ensures
        r == spec_field_of(match s {
            Option::None => Option::None,
            Option::Some(t) => Option::Some(t@),
        }),
{
    match s {
        Option::None => FieldName::NoField,
        Option::Some(t) => {
            let t = t.as_str();
            if str_eq(t, "alternative") {
                FieldName::Alternative
            } else if str_eq(t, "operator") {
                FieldName::Operator
            } else if str_eq(t, "left") {
                FieldName::Left
            } else if str_eq(t, "right") {
                FieldName::Right
            } else if str_eq(t, "name") {
                FieldName::Name
            } else if str_eq(t, "arguments") {
                FieldName::Arguments
            } else if str_eq(t, "value") {
                FieldName::Value
            } else if str_eq(t, "body") {
                FieldName::Body
            } else {
                FieldName::OtherField
            }
        },
    }
}

/// The first node of the given kind at or after `from`, in post-order.
pub open spec fn spec_next_matching(nodes: Seq<NodeData>, from: int, kind: NodeKind) -> Option<
    usize,
>
    decreases nodes.len() - from,
{
    if from < 0 || from >= nodes.len() {
        None
    } else if nodes[from].kind == kind {
        Some(from as usize)
    } else {
        spec_next_matching(nodes, from + 1, kind)
    }
}

/// Finds the next node of the given kind at or after index `from`; the
/// indices run in the order the walk leaves the nodes, so repeated calls
/// enumerate all nodes of that kind in post-order.
#[verifier::loop_isolation(false)]
pub fn next_node_matching(tree: &SyntaxTree, from: usize, kind: NodeKind) -> (r: Option<usize>)
    requires
        tree.wf(),
    ensures
        r == spec_next_matching(tree.nodes@, from as int, kind),
        r matches Some(c) ==> from <= c < tree.nodes@.len(),
{
    let n = tree.nodes.len();
    let mut j: usize = from;
    while j < n
        invariant
            from <= j,
            spec_next_matching(tree.nodes@, from as int, kind) == spec_next_matching(
                tree.nodes@,
                j as int,
                kind,
            ),
        decreases n - j,
    {
        if tree.nodes[j].kind == kind {
            return Some(j);
        }
        j = j + 1;
    }
    None
}

} // verus!
