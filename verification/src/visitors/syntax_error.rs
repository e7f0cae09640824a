//! Syntax errors recovered by the parser.
//!
//! Error nodes give a generic message; missing nodes give a message derived
//! from the parser's S-expression rendering, and their zero-width span is
//! widened to one column.
use vstd::prelude::*;

verus! {

use crate::location::{SonarLocation, spec_node_sonar};
use crate::text::{lower_bytes, spec_lower_bytes, string_from_utf8};
use crate::tree::{NodeData, SyntaxTree, wf_node};
use vstd::slice::{slice_subrange, slice_to_vec};
use vstd::string::{StrSliceExecFns, StringExecFns, StringSliceAdditionalSpecFns};
use vstd::utf8::{decode_utf8, encode_utf8, valid_utf8};

/// One recovered syntax error.
#[derive(Debug, PartialEq, Eq, PartialOrd, Ord, Clone)]
pub struct SyntaxError {
    pub message: String,
    pub location: SonarLocation,
}

/// The mathematical shadow of a [`SyntaxError`].
pub struct SpecSyntaxError {
    pub message: Seq<char>,
    pub location: SonarLocation,
}

impl View for SyntaxError {
    type V = SpecSyntaxError;

    open spec fn view(&self) -> SpecSyntaxError {
        SpecSyntaxError { message: self.message@, location: self.location }
    }
}

pub open spec fn se_views(s: Seq<SyntaxError>) -> Seq<SpecSyntaxError> {
    Seq::new(s.len(), |j: int| s[j]@)
}

/// The message reported for an error node.
pub open spec fn spec_error_message() -> Seq<char> {
    "A syntax error occurred during parsing."@
}

/// The message reported for a missing node: the S-expression rendering,
/// without its outer parentheses and with ASCII letters lowercased. The
/// grammar renders these S-expressions in ASCII, so nothing more than the
/// ASCII letters ever needs folding.
pub open spec fn spec_missing_message(sexp: Seq<char>) -> Seq<char> {
    let b = encode_utf8(sexp);
    let inner = if b.len() >= 2 {
        b.subrange(1, b.len() - 1)
    } else {
        Seq::empty()
    };
    let low = spec_lower_bytes(inner);
    "A syntax error occurred during parsing: "@ + (if valid_utf8(low) {
        decode_utf8(low)
    } else {
        Seq::empty()
    }) + "."@
}

/// Builds the message for a missing node from its S-expression rendering.
pub(crate) fn missing_message(sexp: &String) -> (r: String)
    ensures
        r@ == spec_missing_message(sexp@),
{
    let sb = sexp.as_str().as_bytes();
    let inner: Vec<u8> = if sb.len() >= 2 {
        slice_to_vec(slice_subrange(sb, 1, sb.len() - 1))
    } else {
        Vec::new()
    };
    proof {
        if sb@.len() < 2 {
            assert(inner@ =~= Seq::<u8>::empty());
        }
    }
    let low = lower_bytes(&inner);
    let mut m = String::from_str("A syntax error occurred during parsing: ");
    match string_from_utf8(low) {
        Some(s) => {
            m.append(s.as_str());
        },
        None => {},
    }
    m.append(".");
    m
}

/// A zero-width span is widened to one column.
pub open spec fn spec_widen(loc: SonarLocation) -> SonarLocation {
    SonarLocation {
        end_column: if loc.start_column == loc.end_column {
            (loc.start_column + 1) as usize
        } else {
            loc.end_column
        },
        ..loc
    }
}

/// The syntax errors of the subtree rooted at `i`, in the order the walk
/// leaves the nodes: the children's errors first, then the node's own.
pub open spec fn spec_syntax_errors(nodes: Seq<NodeData>, src: Seq<u8>, i: int) -> Seq<
    SpecSyntaxError,
>
    decreases i, nodes[i].children@.len() + 1,
{
    let own_error: Seq<SpecSyntaxError> = if nodes[i].error {
        seq![
            SpecSyntaxError {
                message: spec_error_message(),
                location: spec_node_sonar(nodes, i, src),
            },
        ]
    } else {
        Seq::empty()
    };
    let own_missing: Seq<SpecSyntaxError> = if nodes[i].missing {
        seq![
            SpecSyntaxError {
                message: match nodes[i].sexp {
                    Some(s) => spec_missing_message(s@),
                    None => spec_missing_message(Seq::empty()),
                },
                location: spec_widen(spec_node_sonar(nodes, i, src)),
            },
        ]
    } else {
        Seq::empty()
    };
    (if nodes[i].extra {
        Seq::empty()
    } else {
        spec_syntax_errors_children(nodes, src, i, nodes[i].children@.len() as int)
    }) + own_error + own_missing
}

pub open spec fn spec_syntax_errors_children(
    nodes: Seq<NodeData>,
    src: Seq<u8>,
    i: int,
    k: int,
) -> Seq<SpecSyntaxError>
    decreases i, k,
{
    if k <= 0 {
        Seq::empty()
    } else {
        spec_syntax_errors_children(nodes, src, i, k - 1) + {
            let c = nodes[i].children@[k - 1] as int;
            if 0 <= c < i {
                spec_syntax_errors(nodes, src, c)
            } else {
                Seq::empty()
            }
        }
    }
}

/// Walks the subtree rooted at `i` and appends its syntax errors.
#[verifier::loop_isolation(false)]
#[verifier::rlimit(100)]
fn se_visit(tree: &SyntaxTree, src: &[u8], i: usize, out: &mut Vec<SyntaxError>)
    requires
        tree.wf(),
        i < tree.nodes@.len(),
        src@.len() == tree.src_len,
    ensures
        se_views(final (out)@) == se_views(old(out)@) + spec_syntax_errors(
            tree.nodes@,
            src@,
            i as int,
        ),
    decreases i,
{
    let ghost nodes = tree.nodes@;
    proof {
        assert(wf_node(nodes, tree.parents@, tree.src_len, tree.n_lines, i as int));
    }
    let ghost kids = if nodes[i as int].extra {
        Seq::<SpecSyntaxError>::empty()
    } else {
        spec_syntax_errors_children(nodes, src@, i as int, nodes[i as int].children@.len() as int)
    };
    if !tree.nodes[i].extra {
        let m = tree.nodes[i].children.len();
        let mut k: usize = 0;
        proof {
            assert(se_views(out@) =~= se_views(old(out)@) + spec_syntax_errors_children(
                nodes,
                src@,
                i as int,
                0,
            ));
        }
        while k < m
            invariant
                k <= m,
                se_views(out@) == se_views(old(out)@) + spec_syntax_errors_children(
                    nodes,
                    src@,
                    i as int,
                    k as int,
                ),
            decreases m - k,
        {
            let c = tree.nodes[i].children[k];
            let ghost before = out@;
            se_visit(tree, src, c, out);
            proof {
                assert(se_views(out@) =~= se_views(old(out)@) + spec_syntax_errors_children(
                    nodes,
                    src@,
                    i as int,
                    k + 1,
                ));
            }
            k = k + 1;
        }
    }
    proof {
        assert(se_views(out@) =~= se_views(old(out)@) + kids);
    }
    let ghost err_seq: Seq<SpecSyntaxError> = if nodes[i as int].error {
        seq![
            SpecSyntaxError {
                message: spec_error_message(),
                location: spec_node_sonar(nodes, i as int, src@),
            },
        ]
    } else {
        Seq::empty()
    };
    let ghost missing_seq: Seq<SpecSyntaxError> = if nodes[i as int].missing {
        seq![
            SpecSyntaxError {
                message: match nodes[i as int].sexp {
                    Some(sx) => spec_missing_message(sx@),
                    None => spec_missing_message(Seq::empty()),
                },
                location: spec_widen(spec_node_sonar(nodes, i as int, src@)),
            },
        ]
    } else {
        Seq::empty()
    };
    if tree.nodes[i].error {
        let message = String::from_str("A syntax error occurred during parsing.");
        let location = crate::location::node_sonar_location(tree, i, src);
        out.push(SyntaxError { message, location });
    }
    proof {
        assert(se_views(out@) =~= se_views(old(out)@) + kids + err_seq);
    }
    if tree.nodes[i].missing {
        let message = match &tree.nodes[i].sexp {
            Some(s) => missing_message(s),
            None => {
                let empty = String::new();
                missing_message(&empty)
            },
        };
        let location = crate::location::node_sonar_location(tree, i, src);
        let location = SonarLocation {
            end_column: if location.start_column == location.end_column {
                proof {
                    crate::text::lemma_utf16_units_bound(
                        src@.subrange(
                            nodes[i as int].start_byte - nodes[i as int].start_col,
                            nodes[i as int].start_byte as int,
                        ),
                    );
                }
                location.start_column + 1
            } else {
                location.end_column
            },
            ..location
        };
        out.push(SyntaxError { message, location });
    }
    proof {
        assert(se_views(out@) =~= se_views(old(out)@) + kids + err_seq + missing_seq);
        assert(spec_syntax_errors(nodes, src@, i as int) =~= kids + err_seq + missing_seq);
        assert(se_views(out@) =~= se_views(old(out)@) + spec_syntax_errors(nodes, src@, i as int));
    }
}

/// Finds every syntax error that the parser recovered: a generic message per
/// error node, and a derived message with a widened span per missing node.
pub fn find_syntax_errors(tree: &SyntaxTree, source_code: &str) -> (r: Vec<SyntaxError>)
    requires
        tree.wf(),
        source_code.spec_bytes().len() == tree.src_len,
    ensures
        se_views(r@) == spec_syntax_errors(
            tree.nodes@,
            source_code.spec_bytes(),
            tree.spec_root(),
        ),
{
    let src = source_code.as_bytes();
    let mut out: Vec<SyntaxError> = Vec::new();
    let root = tree.root();
    proof {
        assert(se_views(out@) =~= Seq::<SpecSyntaxError>::empty());
    }
    se_visit(tree, src, root, &mut out);
    proof {
        assert(se_views(out@) =~= spec_syntax_errors(
            tree.nodes@,
            source_code.spec_bytes(),
            tree.spec_root(),
        ));
    }
    out
}

} // verus!
