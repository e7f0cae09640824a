//! Source locations: the parser's byte-oriented form and the reporting form.
use vstd::prelude::*;

verus! {

use crate::text::{SRC_LIMIT, spec_utf16_units, utf16_units};
use crate::tree::{SyntaxTree, wf_node, NodeData};

/// Source location as the parser defines it: byte offsets, 0-based rows, and
/// columns counted in bytes from the start of the line.
#[derive(Debug, PartialEq, Eq, PartialOrd, Ord, Clone)]
pub struct TreeSitterLocation {
    pub start_byte: usize,
    pub end_byte: usize,
    pub start_row: usize,
    pub start_col: usize,
    pub end_row: usize,
    pub end_col: usize,
}

/// Source location as the reporting API expects it.
///
/// The differences from TreeSitterLocation are:
/// - Line numbers are 1-based.
/// - Column counts are in UTF-16 code units, so `©` counts as 1 and `𠱓` as 2.
#[derive(Debug, PartialEq, Eq, PartialOrd, Ord, Clone)]
pub struct SonarLocation {
    pub start_line: usize,
    pub start_column: usize,
    pub end_line: usize,
    pub end_column: usize,
}

/// The location of node `i` of a tree.
pub open spec fn spec_node_location(nodes: Seq<NodeData>, i: int) -> TreeSitterLocation {
    TreeSitterLocation {
        start_byte: nodes[i].start_byte,
        end_byte: nodes[i].end_byte,
        start_row: nodes[i].start_row,
        start_col: nodes[i].start_col,
        end_row: nodes[i].end_row,
        end_col: nodes[i].end_col,
    }
}

/// The bounds under which a location can be translated against a source text.
pub open spec fn loc_in_source(l: TreeSitterLocation, src: Seq<u8>) -> bool {
    &&& l.start_col <= l.start_byte <= src.len()
    &&& l.end_col <= l.end_byte <= src.len()
    &&& l.start_row <= SRC_LIMIT
    &&& l.end_row <= SRC_LIMIT
}

/// The reporting location of `l`: rows shifted to 1-based, and each column
/// the UTF-16 length of the line's bytes before the endpoint.
pub open spec fn spec_to_sonar(l: TreeSitterLocation, src: Seq<u8>) -> SonarLocation {
    SonarLocation {
        start_line: (l.start_row + 1) as usize,
        start_column: spec_utf16_units(
            src.subrange(l.start_byte - l.start_col, l.start_byte as int),
        ) as usize,
        end_line: (l.end_row + 1) as usize,
        end_column: spec_utf16_units(src.subrange(l.end_byte - l.end_col, l.end_byte as int)) as usize,
    }
}

impl TreeSitterLocation {
    /// The location of node `i` of a tree.
    pub fn from_tree_sitter_node(tree: &SyntaxTree, i: usize) -> (r: TreeSitterLocation)
        requires
            tree.wf(),
            i < tree.nodes@.len(),
        ensures
            r == spec_node_location(tree.nodes@, i as int),
    {
        let n = &tree.nodes[i];
        TreeSitterLocation {
            start_byte: n.start_byte,
            end_byte: n.end_byte,
            start_row: n.start_row,
            start_col: n.start_col,
            end_row: n.end_row,
            end_col: n.end_col,
        }
    }

    /// Calculates the reporting location: lines become 1-based, and byte
    /// columns are converted to UTF-16 code-unit counts by measuring the
    /// line's bytes before each endpoint.
    pub fn to_sonar_location(&self, source_code: &[u8]) -> (r: SonarLocation)
        requires
            loc_in_source(*self, source_code@),
            source_code@.len() <= SRC_LIMIT,
        ensures
            r == spec_to_sonar(*self, source_code@),
    {
        let first_line_start_byte = self.start_byte - self.start_col;
        let first_line_offset = utf16_units(source_code, first_line_start_byte, self.start_byte);
        let last_line_start_byte = self.end_byte - self.end_col;
        let last_line_offset = utf16_units(source_code, last_line_start_byte, self.end_byte);
        proof {
            crate::text::lemma_utf16_units_bound(
                source_code@.subrange(
                    self.start_byte - self.start_col,
                    self.start_byte as int,
                ),
            );
            crate::text::lemma_utf16_units_bound(
                source_code@.subrange(self.end_byte - self.end_col, self.end_byte as int),
            );
        }
        SonarLocation {
            start_line: self.start_row + 1,
            start_column: first_line_offset,
            end_line: self.end_row + 1,
            end_column: last_line_offset,
        }
    }
}

/// The reporting location of node `i` against the source: the composition of
/// the two steps above.
pub open spec fn spec_node_sonar(nodes: Seq<NodeData>, i: int, src: Seq<u8>) -> SonarLocation {
    spec_to_sonar(spec_node_location(nodes, i), src)
}

/// Translates the location of node `i` of a tree directly.
pub fn node_sonar_location(tree: &SyntaxTree, i: usize, source_code: &[u8]) -> (r: SonarLocation)
    requires
        tree.wf(),
        i < tree.nodes@.len(),
        source_code@.len() == tree.src_len,
    ensures
        r == spec_node_sonar(tree.nodes@, i as int, source_code@),
{
    proof {
        assert(wf_node(tree.nodes@, tree.parents@, tree.src_len, tree.n_lines, i as int));
    }
    let l = TreeSitterLocation::from_tree_sitter_node(tree, i);
    l.to_sonar_location(source_code)
}

/// Translates a location when it lies inside the source; `None` otherwise.
pub fn sonar_location_checked(l: &TreeSitterLocation, source_code: &[u8]) -> (r: Option<
    SonarLocation,
>)
    requires
        source_code@.len() <= SRC_LIMIT,
    ensures
        r is Some <==> loc_in_source(*l, source_code@),
        r matches Some(s) ==> s == spec_to_sonar(*l, source_code@),
{
    if l.start_col <= l.start_byte && l.start_byte <= source_code.len() && l.end_col <= l.end_byte
        && l.end_byte <= source_code.len() && l.start_row <= SRC_LIMIT && l.end_row <= SRC_LIMIT {
        Some(l.to_sonar_location(source_code))
    } else {
        None
    }
}

/// Law: for a location whose line prefixes are valid UTF-8, the reported
/// position is exactly the 1-based line paired with the UTF-16 length of
/// the decoded text between the start of the line and the endpoint.
pub proof fn lemma_location_round_trip(l: TreeSitterLocation, src: Seq<u8>)
    requires
        loc_in_source(l, src),
        src.len() <= SRC_LIMIT,
        vstd::utf8::valid_utf8(src.subrange(l.start_byte - l.start_col, l.start_byte as int)),
        vstd::utf8::valid_utf8(src.subrange(l.end_byte - l.end_col, l.end_byte as int)),
    ensures
        spec_to_sonar(l, src).start_line == l.start_row + 1,
        spec_to_sonar(l, src).end_line == l.end_row + 1,
        spec_to_sonar(l, src).start_column == crate::text::spec_utf16_len_chars(
            vstd::utf8::decode_utf8(
                src.subrange(l.start_byte - l.start_col, l.start_byte as int),
            ),
        ),
        spec_to_sonar(l, src).end_column == crate::text::spec_utf16_len_chars(
            vstd::utf8::decode_utf8(src.subrange(l.end_byte - l.end_col, l.end_byte as int)),
        ),
{
    crate::text::lemma_utf16_units_decode(
        src.subrange(l.start_byte - l.start_col, l.start_byte as int),
    );
    crate::text::lemma_utf16_units_decode(
        src.subrange(l.end_byte - l.end_col, l.end_byte as int),
    );
    crate::text::lemma_utf16_units_bound(
        src.subrange(l.start_byte - l.start_col, l.start_byte as int),
    );
    crate::text::lemma_utf16_units_bound(src.subrange(l.end_byte - l.end_col, l.end_byte as int));
}

} // verus!
