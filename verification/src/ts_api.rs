//! Thin trusted layer over the grammar library.
//!
//! Every item in this module either declares an outside type or wraps exactly
//! the outside calls that the rest of the crate needs. Nothing here is
//! verified; the contracts are deliberately silent about the content of the
//! parse tree, and all conclusions about it are drawn by verified code that
//! inspects the plain values these wrappers hand back.
use tree_sitter::StreamingIterator;
use vstd::prelude::*;

verus! {

#[verifier::external_type_specification]
#[verifier::external_body]
pub struct ExTree(tree_sitter::Tree);

#[verifier::external_type_specification]
#[verifier::external_body]
pub struct ExNode<'tree>(tree_sitter::Node<'tree>);

#[verifier::external_type_specification]
#[verifier::external_body]
pub struct ExTreeCursor<'tree>(tree_sitter::TreeCursor<'tree>);

/// Relies on Parser::new, Parser::set_language and Parser::parse of the
/// grammar library: parses the given text with the bundled grammar.
/// `set_language` fails when the grammar cannot be used by the linked
/// library, such as on a version mismatch (reported as `Err(true)`);
/// `parse` returns `None` only when parsing was cancelled or no language
/// was set (reported as `Err(false)`).
#[verifier::external_body]
pub(crate) fn ts_parse(source_code: &str) -> (r: Result<tree_sitter::Tree, bool>) {
    let mut parser = tree_sitter::Parser::new();
    if parser.set_language(&tree_sitter_rust::LANGUAGE.into()).is_err() {
        return Err(true);
    }
    parser.parse(source_code, None).ok_or(false)
}

/// Relies on Tree::walk: returns a cursor positioned at the root node.
#[verifier::external_body]
pub(crate) fn ts_tree_cursor(tree: &tree_sitter::Tree) -> (r: tree_sitter::TreeCursor<'_>) {
    tree.walk()
}

/// Relies on TreeCursor::node: returns the node the cursor points at.
#[verifier::external_body]
pub(crate) fn ts_cursor_node<'t>(cursor: &tree_sitter::TreeCursor<'t>) -> (r: tree_sitter::Node<'t>) {
    cursor.node()
}

/// Relies on TreeCursor::goto_first_child: moves to the first child and
/// returns true, or returns false if there is none.
#[verifier::external_body]
pub(crate) fn ts_goto_first_child(cursor: &mut tree_sitter::TreeCursor<'_>) -> (r: bool) {
    cursor.goto_first_child()
}

/// Relies on TreeCursor::goto_next_sibling: moves to the next sibling and
/// returns true, or returns false if there is none.
#[verifier::external_body]
pub(crate) fn ts_goto_next_sibling(cursor: &mut tree_sitter::TreeCursor<'_>) -> (r: bool) {
    cursor.goto_next_sibling()
}

/// Relies on TreeCursor::goto_parent: moves to the parent and returns true,
/// or returns false if the cursor is already at the root.
#[verifier::external_body]
pub(crate) fn ts_goto_parent(cursor: &mut tree_sitter::TreeCursor<'_>) -> (r: bool) {
    cursor.goto_parent()
}

/// Relies on TreeCursor::field_name: the field name under which the current
/// node is attached to its parent, if any.
#[verifier::external_body]
pub(crate) fn ts_cursor_field_name(cursor: &tree_sitter::TreeCursor<'_>) -> (r: Option<String>) {
    cursor.field_name().map(|name| name.to_string())
}

/// Relies on Node::kind: the grammar's name for the node.
#[verifier::external_body]
pub(crate) fn ts_node_kind(node: &tree_sitter::Node<'_>) -> (r: String) {
    node.kind().to_string()
}

/// Relies on Node::start_byte.
#[verifier::external_body]
pub(crate) fn ts_node_start_byte(node: &tree_sitter::Node<'_>) -> (r: usize) {
    node.start_byte()
}

/// Relies on Node::end_byte.
#[verifier::external_body]
pub(crate) fn ts_node_end_byte(node: &tree_sitter::Node<'_>) -> (r: usize) {
    node.end_byte()
}

/// Relies on Node::start_position: 0-based row, and column in bytes from the
/// start of the line.
#[verifier::external_body]
pub(crate) fn ts_node_start_point(node: &tree_sitter::Node<'_>) -> (r: (usize, usize)) {
    let point = node.start_position();
    (point.row, point.column)
}

/// Relies on Node::end_position: 0-based row, and column in bytes from the
/// start of the line.
#[verifier::external_body]
pub(crate) fn ts_node_end_point(node: &tree_sitter::Node<'_>) -> (r: (usize, usize)) {
    let point = node.end_position();
    (point.row, point.column)
}

/// Relies on Node::is_named.
#[verifier::external_body]
pub(crate) fn ts_node_is_named(node: &tree_sitter::Node<'_>) -> (r: bool) {
    node.is_named()
}

/// Relies on Node::is_missing.
#[verifier::external_body]
pub(crate) fn ts_node_is_missing(node: &tree_sitter::Node<'_>) -> (r: bool) {
    node.is_missing()
}

/// Relies on Node::is_error.
#[verifier::external_body]
pub(crate) fn ts_node_is_error(node: &tree_sitter::Node<'_>) -> (r: bool) {
    node.is_error()
}

/// Relies on Node::is_extra.
#[verifier::external_body]
pub(crate) fn ts_node_is_extra(node: &tree_sitter::Node<'_>) -> (r: bool) {
    node.is_extra()
}

/// Relies on Node::to_sexp: an S-expression rendering of the node.
#[verifier::external_body]
pub(crate) fn ts_node_sexp(node: &tree_sitter::Node<'_>) -> (r: String) {
    node.to_sexp()
}

#[verifier::external_type_specification]
#[verifier::external_body]
pub struct ExQuery(tree_sitter::Query);

/// Relies on Query::new: compiles the grammar's bundled highlight query.
/// Fails only when the query source and the grammar disagree.
#[verifier::external_body]
pub(crate) fn ts_highlight_query() -> (r: Option<tree_sitter::Query>) {
    tree_sitter::Query::new(
        &tree_sitter_rust::LANGUAGE.into(),
        tree_sitter_rust::HIGHLIGHTS_QUERY,
    ).ok()
}

/// Relies on QueryCursor::matches and Query::capture_names: runs the query
/// over the whole tree and hands every capture back as plain values, in
/// match order.
#[verifier::external_body]
pub(crate) fn ts_query_captures(
    query: &tree_sitter::Query,
    tree: &tree_sitter::Tree,
    source_code: &str,
) -> (r: Vec<crate::visitors::highlight::RawCapture>) {
    let mut cursor = tree_sitter::QueryCursor::new();
    let names = query.capture_names();
    let mut matches = cursor.matches(query, tree.root_node(), source_code.as_bytes());
    let mut out = Vec::new();
    while let Some(m) = matches.next() {
        for c in m.captures() {
            let (s, e) = (c.node.start_position(), c.node.end_position());
            out.push(crate::visitors::highlight::RawCapture {
                name: names[c.index as usize].to_string(), node_id: c.node.id(),
                start_byte: c.node.start_byte(), end_byte: c.node.end_byte(),
                start_row: s.row, start_col: s.column, end_row: e.row, end_col: e.column,
            });
        }
    }
    out
}

} // verus!
