//! File metrics: lines of code, comment lines, functions, statements,
//! classes, and the two complexity measures.
//!
//! Lines of code are the lines touched by at least one leaf node; comment
//! lines are the lines inside a comment whose text is not blank. Both are
//! counted by marking rows in a flag table whose contents are pinned, row by
//! row, to the marking predicates below.
use vstd::prelude::*;

verus! {

use crate::text::{
    find_nl,
    is_blank,
    range_to_string,
    spec_blank_bytes,
    spec_find_nl,
};
use crate::tree::{AnalyzerError, NodeData, NodeKind, SyntaxTree, wf_node};
use crate::visitors::cognitive_complexity::{
    calculate_total_cognitive_complexity,
    spec_cc_ok,
    spec_cc_total,
    spec_cc_walk_error_message,
};
use crate::visitors::cyclomatic_complexity::{calculate_cyclomatic_complexity, spec_cyclomatic};
use crate::visitors::walk::{Weight, spec_tree_sum, tree_sum};
use vstd::string::StringSliceAdditionalSpecFns;

/// The metrics of one file.
#[derive(Debug, PartialEq, Eq, PartialOrd, Ord, Clone, Default)]
pub struct Metrics {
    pub ncloc: i32,
    pub comment_lines: i32,
    pub functions: i32,
    pub statements: i32,
    pub classes: i32,
    pub cognitive_complexity: i32,
    pub cyclomatic_complexity: i32,
}

/// The two row-marking passes.
#[derive(Clone, Copy, Debug, PartialEq, Eq, Structural)]
pub enum RowMark {
    /// Rows touched by a leaf node.
    Ncloc,
    /// Rows of a comment whose text on that row is not blank.
    CommentLines,
}

/// Whether row `r` is marked by the comment text `[lo, hi)` of `src`, whose
/// first line lies on row `row`: the text is split at newline bytes, a
/// carriage return before a newline is dropped, the line after a trailing
/// newline is dropped, and a line marks its row when it is not blank.
pub open spec fn spec_comment_line_marked(
    src: Seq<u8>,
    lo: int,
    hi: int,
    row: int,
    r: int,
) -> bool
    decreases hi - lo,
{
    if lo >= hi {
        false
    } else {
        let e = spec_find_nl(src, lo, hi);
        let e2 = if lo < e && e < hi && src[e - 1] == 0x0Du8 {
            e - 1
        } else {
            e
        };
        let cur = r == row && !spec_blank_bytes(src.subrange(lo, if e2 < lo {
            lo
        } else {
            e2
        }));
        cur || (if lo <= e && e < hi {
            spec_comment_line_marked(src, e + 1, hi, row + 1, r)
        } else {
            false
        })
    }
}

/// A comment text marks no row above its first line.
pub proof fn lemma_clm_low(src: Seq<u8>, lo: int, hi: int, row: int, r: int)
    requires
        r < row,
    ensures
        !spec_comment_line_marked(src, lo, hi, row, r),
    decreases hi - lo,
{
    if lo < hi {
        let e = spec_find_nl(src, lo, hi);
        if lo <= e && e < hi {
            lemma_clm_low(src, e + 1, hi, row + 1, r);
        }
    }
}

/// Whether node `i` itself marks row `r`.
pub open spec fn spec_mark_node(mk: RowMark, nodes: Seq<NodeData>, src: Seq<u8>, i: int, r: int) -> bool {
    match mk {
        RowMark::Ncloc => nodes[i].children@.len() == 0 && nodes[i].start_row <= r <= nodes[i].end_row,
        RowMark::CommentLines => (nodes[i].kind == NodeKind::LineComment || nodes[i].kind
            == NodeKind::BlockComment) && spec_comment_line_marked(
            src,
            nodes[i].start_byte as int,
            nodes[i].end_byte as int,
            nodes[i].start_row as int,
            r,
        ),
    }
}

/// Whether row `r` is marked anywhere in the subtree rooted at `i`, with
/// extra nodes treated as leaves.
pub open spec fn spec_marked(mk: RowMark, nodes: Seq<NodeData>, src: Seq<u8>, i: int, r: int) -> bool
    decreases i, nodes[i].children@.len() + 1,
{
    spec_mark_node(mk, nodes, src, i, r) || (!nodes[i].extra && spec_marked_children(
        mk,
        nodes,
        src,
        i,
        nodes[i].children@.len() as int,
        r,
    ))
}

pub open spec fn spec_marked_children(
    mk: RowMark,
    nodes: Seq<NodeData>,
    src: Seq<u8>,
    i: int,
    k: int,
    r: int,
) -> bool
    decreases i, k,
{
    if k <= 0 {
        false
    } else {
        spec_marked_children(mk, nodes, src, i, k - 1, r) || {
            let c = nodes[i].children@[k - 1] as int;
            0 <= c < i && spec_marked(mk, nodes, src, c, r)
        }
    }
}

/// The number of marked rows below `limit`.
pub open spec fn spec_mark_count(
    mk: RowMark,
    nodes: Seq<NodeData>,
    src: Seq<u8>,
    i: int,
    limit: int,
) -> int
    decreases limit,
{
    if limit <= 0 {
        0
    } else {
        spec_mark_count(mk, nodes, src, i, limit - 1) + if spec_marked(
            mk,
            nodes,
            src,
            i,
            limit - 1,
        ) {
            1int
        } else {
            0int
        }
    }
}

/// Marks the rows of one comment text in the flag table.
#[verifier::loop_isolation(false)]
#[verifier::rlimit(100)]
fn mark_comment_rows(
    src: &[u8],
    lo: usize,
    hi: usize,
    row0: usize,
    flags: &mut Vec<bool>,
) -> (unit: ())
    requires
        lo <= hi <= src@.len(),
        row0 <= src@.len(),
        src@.len() <= crate::text::SRC_LIMIT,
    ensures
        final (flags)@.len() == old(flags)@.len(),
        forall|r: int|
            0 <= r < old(flags)@.len() ==> final (flags)@[r] == (old(flags)@[r]
                || spec_comment_line_marked(src@, lo as int, hi as int, row0 as int, r)),
{
    let mut pos: usize = lo;
    let mut row: usize = row0;
    proof {
        assert forall|r: int|
            r < row0 implies !spec_comment_line_marked(
            src@,
            lo as int,
            hi as int,
            row0 as int,
            r,
        ) by {
            lemma_clm_low(src@, lo as int, hi as int, row0 as int, r);
        }
    }
    loop
        invariant
            lo <= pos <= hi <= src@.len(),
            row0 <= row <= row0 + (pos - lo),
            flags@.len() == old(flags)@.len(),
            forall|r: int|
                0 <= r < old(flags)@.len() ==> flags@[r] == (old(flags)@[r]
                    || (spec_comment_line_marked(src@, lo as int, hi as int, row0 as int, r) && r
                    < row)),
            forall|r: int|
                r >= row ==> spec_comment_line_marked(src@, lo as int, hi as int, row0 as int, r)
                    == spec_comment_line_marked(src@, pos as int, hi as int, row as int, r),
        decreases hi - pos,
    {
        if pos >= hi {
            proof {
                assert forall|r: int| 0 <= r < old(flags)@.len() implies flags@[r] == (old(
                    flags,
                )@[r] || spec_comment_line_marked(src@, lo as int, hi as int, row0 as int, r)) by {
                    if r >= row {
                        assert(!spec_comment_line_marked(src@, pos as int, hi as int, row as int, r));
                    }
                }
            }
            return ;
        }
        let e = find_nl(src, pos, hi);
        let e2 = if pos < e && e < hi && src[e - 1] == 0x0Du8 {
            e - 1
        } else {
            e
        };
        let non_blank: bool = match range_to_string(src, pos, e2) {
            Some(s) => !is_blank(s.as_str()),
            None => true,
        };
        if non_blank && row < flags.len() {
            flags.set(row, true);
        }
        proof {
            lemma_clm_low(src@, pos as int, hi as int, row as int, row as int - 1);
        }
        if e < hi {
            proof {
                assert forall|r: int|
                    r >= row + 1 implies spec_comment_line_marked(
                    src@,
                    lo as int,
                    hi as int,
                    row0 as int,
                    r,
                ) == spec_comment_line_marked(src@, e + 1, hi as int, row as int + 1, r) by {
                    assert(spec_comment_line_marked(src@, pos as int, hi as int, row as int, r)
                        == spec_comment_line_marked(src@, e + 1, hi as int, row as int + 1, r));
                }
                assert forall|r: int| 0 <= r < old(flags)@.len() implies flags@[r] == (old(
                    flags,
                )@[r] || (spec_comment_line_marked(src@, lo as int, hi as int, row0 as int, r) && r
                    < row + 1)) by {
                    if r == row {
                        if flags@[r] && !old(flags)@[r] {
                            assert(spec_comment_line_marked(
                                src@,
                                pos as int,
                                hi as int,
                                row as int,
                                r,
                            ));
                        }
                        if !flags@[r] {
                            assert(!spec_comment_line_marked(
                                src@,
                                pos as int,
                                hi as int,
                                row as int,
                                r,
                            )) by {
                                lemma_clm_low(src@, e + 1, hi as int, row as int + 1, r);
                            }
                        }
                    }
                }
            }
            pos = e + 1;
            row = row + 1;
        } else {
            proof {
                assert forall|r: int| 0 <= r < old(flags)@.len() implies flags@[r] == (old(
                    flags,
                )@[r] || spec_comment_line_marked(src@, lo as int, hi as int, row0 as int, r)) by {
                    if r >= row {
                        if r > row {
                            assert(!spec_comment_line_marked(
                                src@,
                                pos as int,
                                hi as int,
                                row as int,
                                r,
                            ));
                        }
                    }
                }
            }
            return ;
        }
    }
}

/// Marks every row that the subtree rooted at `i` marks.
#[verifier::loop_isolation(false)]
#[verifier::rlimit(100)]
fn mark_rows(
    tree: &SyntaxTree,
    src: &[u8],
    mk: RowMark,
    i: usize,
    flags: &mut Vec<bool>,
) -> (unit: ())
    requires
        tree.wf(),
        i < tree.nodes@.len(),
        src@.len() == tree.src_len,
        old(flags)@.len() == tree.n_lines,
    ensures
        final (flags)@.len() == old(flags)@.len(),
        forall|r: int|
            0 <= r < old(flags)@.len() ==> final (flags)@[r] == (old(flags)@[r] || spec_marked(
                mk,
                tree.nodes@,
                src@,
                i as int,
                r,
            )),
    decreases i,
{
    let ghost nodes = tree.nodes@;
    proof {
        assert(wf_node(nodes, tree.parents@, tree.src_len, tree.n_lines, i as int));
    }
    match mk {
        RowMark::Ncloc => {
            if tree.nodes[i].children.len() == 0 {
                let mut row = tree.nodes[i].start_row;
                let last = tree.nodes[i].end_row;
                while row <= last
                    invariant
                        tree.nodes@[i as int].start_row <= row <= last + 1,
                        last == tree.nodes@[i as int].end_row < tree.n_lines,
                        flags@.len() == old(flags)@.len(),
                        forall|r: int|
                            0 <= r < old(flags)@.len() ==> flags@[r] == (old(flags)@[r] || (
                            tree.nodes@[i as int].start_row <= r < row)),
                    decreases last + 1 - row,
                {
                    flags.set(row, true);
                    row = row + 1;
                }
            }
        },
        RowMark::CommentLines => {
            if tree.nodes[i].kind == NodeKind::LineComment || tree.nodes[i].kind
                == NodeKind::BlockComment {
                mark_comment_rows(
                    src,
                    tree.nodes[i].start_byte,
                    tree.nodes[i].end_byte,
                    tree.nodes[i].start_row,
                    flags,
                );
            }
        },
    }
    let ghost after_node = flags@;
    proof {
        assert(forall|r: int|
            0 <= r < old(flags)@.len() ==> after_node[r] == (old(flags)@[r] || spec_mark_node(
                mk,
                nodes,
                src@,
                i as int,
                r,
            )));
    }
    if !tree.nodes[i].extra {
        let m = tree.nodes[i].children.len();
        let mut k: usize = 0;
        while k < m
            invariant
                k <= m,
                flags@.len() == old(flags)@.len(),
                forall|r: int|
                    0 <= r < old(flags)@.len() ==> (#[trigger] flags@[r]) == (after_node[r]
                        || spec_marked_children(mk, nodes, src@, i as int, k as int, r)),
            decreases m - k,
        {
            let c = tree.nodes[i].children[k];
            proof {
                assert(wf_node(nodes, tree.parents@, tree.src_len, tree.n_lines, i as int));
                assert(c < i);
                assert(forall|r: int|
                    0 <= r < old(flags)@.len() ==> (#[trigger] flags@[r]) == (after_node[r]
                        || spec_marked_children(mk, nodes, src@, i as int, k as int, r)));
            }
            let ghost before = flags@;
            mark_rows(tree, src, mk, c, flags);
            proof {
                assert(forall|r: int|
                    0 <= r < before.len() ==> (#[trigger] flags@[r]) == (before[r] || spec_marked(
                        mk,
                        tree.nodes@,
                        src@,
                        c as int,
                        r,
                    )));
                assert forall|r: int|
                    0 <= r < old(flags)@.len() implies flags@[r] == (after_node[r]
                    || spec_marked_children(mk, nodes, src@, i as int, k + 1, r)) by {
                    assert(flags@[r] == (before[r] || spec_marked(mk, nodes, src@, c as int, r)));
                    assert(before[r] == (after_node[r] || spec_marked_children(
                        mk,
                        nodes,
                        src@,
                        i as int,
                        k as int,
                        r,
                    )));
                    assert(spec_marked_children(mk, nodes, src@, i as int, k + 1, r)
                        == (spec_marked_children(mk, nodes, src@, i as int, k as int, r) || (0 <= (
                        nodes[i as int].children@[k as int] as int) < i && spec_marked(
                        mk,
                        nodes,
                        src@,
                        nodes[i as int].children@[k as int] as int,
                        r,
                    ))));
                }
            }
            k = k + 1;
        }
        proof {
            assert(k == m);
            assert(forall|r: int|
                0 <= r < old(flags)@.len() ==> (#[trigger] flags@[r]) == (after_node[r]
                    || spec_marked_children(
                    mk,
                    nodes,
                    src@,
                    i as int,
                    nodes[i as int].children@.len() as int,
                    r,
                )));
        }
    }
    proof {
        assert(forall|r: int|
            0 <= r < old(flags)@.len() ==> (#[trigger] after_node[r]) == (old(flags)@[r]
                || spec_mark_node(mk, nodes, src@, i as int, r)));
        if !nodes[i as int].extra {
            assert(forall|r: int|
                0 <= r < old(flags)@.len() ==> (#[trigger] flags@[r]) == (after_node[r]
                    || spec_marked_children(
                    mk,
                    nodes,
                    src@,
                    i as int,
                    nodes[i as int].children@.len() as int,
                    r,
                )));
        }
        assert forall|r: int|
            0 <= r < old(flags)@.len() implies flags@[r] == (old(flags)@[r] || spec_marked(
            mk,
            nodes,
            src@,
            i as int,
            r,
        )) by {
            assert(after_node[r] == (old(flags)@[r] || spec_mark_node(mk, nodes, src@, i as int, r)));
            assert(spec_marked(mk, nodes, src@, i as int, r) == (spec_mark_node(
                mk,
                nodes,
                src@,
                i as int,
                r,
            ) || (!nodes[i as int].extra && spec_marked_children(
                mk,
                nodes,
                src@,
                i as int,
                nodes[i as int].children@.len() as int,
                r,
            ))));
        }
    }
}

/// Counts the marked rows of the flag table against the marking predicate.
#[verifier::loop_isolation(false)]
fn count_marked(
    tree: &SyntaxTree,
    src: &[u8],
    mk: RowMark,
    flags: &Vec<bool>,
) -> (r: usize)
    requires
        tree.wf(),
        flags@.len() == tree.n_lines,
        forall|r: int|
            0 <= r < flags@.len() ==> flags@[r] == spec_marked(
                mk,
                tree.nodes@,
                src@,
                tree.spec_root(),
                r,
            ),
    ensures
        r == spec_mark_count(mk, tree.nodes@, src@, tree.spec_root(), tree.n_lines as int),
        r <= tree.n_lines,
{
    let n = flags.len();
    let mut count: usize = 0;
    let mut j: usize = 0;
    while j < n
        invariant
            j <= n,
            count == spec_mark_count(mk, tree.nodes@, src@, tree.spec_root(), j as int),
            count <= j,
        decreases n - j,
    {
        if flags[j] {
            count = count + 1;
        }
        j = j + 1;
    }
    count
}

/// Produces a fresh flag table with one entry per line, all clear.
fn fresh_flags(n: usize) -> (r: Vec<bool>)
    ensures
        r@.len() == n,
        forall|j: int| 0 <= j < n ==> !(#[trigger] r@[j]),
{
    let mut flags: Vec<bool> = Vec::new();
    let mut j: usize = 0;
    while j < n
        invariant
            flags@.len() == j,
            j <= n,
            forall|j2: int| 0 <= j2 < j ==> !(#[trigger] flags@[j2]),
        decreases n - j,
    {
        flags.push(false);
        j = j + 1;
    }
    flags
}

/// Counts the rows that the whole tree marks.
fn run_mark_pass(tree: &SyntaxTree, src: &[u8], mk: RowMark) -> (r: usize)
    requires
        tree.wf(),
        src@.len() == tree.src_len,
    ensures
        r == spec_mark_count(mk, tree.nodes@, src@, tree.spec_root(), tree.n_lines as int),
        r <= tree.n_lines,
{
    let mut flags = fresh_flags(tree.n_lines);
    let root = tree.root();
    mark_rows(tree, src, mk, root, &mut flags);
    count_marked(tree, src, mk, &flags)
}

pub proof fn lemma_mark_count_bound(
    mk: RowMark,
    nodes: Seq<NodeData>,
    src: Seq<u8>,
    i: int,
    limit: int,
)
    ensures
        0 <= spec_mark_count(mk, nodes, src, i, limit),
        spec_mark_count(mk, nodes, src, i, limit) <= (if limit >= 0 {
            limit
        } else {
            0
        }),
    decreases limit,
{
    if limit > 0 {
        lemma_mark_count_bound(mk, nodes, src, i, limit - 1);
    }
}

/// Law: the lines of code of a file never exceed its number of lines,
/// counting the portion after the last newline as a line.
pub proof fn lemma_ncloc_bound(t: crate::tree::SyntaxTree, src: Seq<u8>, m: Metrics)
    requires
        t.wf(),
        t.for_source(src),
        m.ncloc == spec_mark_count(RowMark::Ncloc, t.nodes@, src, t.spec_root(), t.n_lines as int),
    ensures
        m.ncloc <= crate::text::spec_line_count(src),
{
    lemma_mark_count_bound(RowMark::Ncloc, t.nodes@, src, t.spec_root(), t.n_lines as int);
}

/// Calculates all metrics of the file in one pass over the tree.
///
/// The counting metrics always succeed; the call fails only when the
/// cognitive-complexity walk reports a structural violation or its total
/// does not fit the reported range.
pub fn calculate_metrics(tree: &SyntaxTree, source_code: &str) -> (r: Result<
    Metrics,
    AnalyzerError,
>)
    requires
        tree.wf(),
        source_code.spec_bytes().len() == tree.src_len,
    ensures
        r matches Ok(m) ==> {
            &&& m.ncloc == spec_mark_count(
                RowMark::Ncloc,
                tree.nodes@,
                source_code.spec_bytes(),
                tree.spec_root(),
                tree.n_lines as int,
            )
            &&& m.comment_lines == spec_mark_count(
                RowMark::CommentLines,
                tree.nodes@,
                source_code.spec_bytes(),
                tree.spec_root(),
                tree.n_lines as int,
            )
            &&& m.functions == spec_tree_sum(Weight::Functions, tree.nodes@, tree.spec_root())
            &&& m.statements == spec_tree_sum(Weight::Statements, tree.nodes@, tree.spec_root())
            &&& m.classes == spec_tree_sum(Weight::Classes, tree.nodes@, tree.spec_root())
            &&& m.cognitive_complexity == spec_cc_total(tree.nodes@, tree.parents@, tree.spec_root())
            &&& m.cyclomatic_complexity == spec_cyclomatic(tree.nodes@)
        },
        r is Ok <==> spec_cc_ok(tree.nodes@, tree.parents@, tree.spec_root()) && spec_cc_total(
            tree.nodes@,
            tree.parents@,
            tree.spec_root(),
        ) <= i32::MAX,
        r matches Err(e) ==> e matches AnalyzerError::FileError(m) && (spec_cc_walk_error_message(
            m@,
        ) || m@ == "the cognitive complexity does not fit the reported range"@),
{
    let src = source_code.as_bytes();
    let root = tree.root();
    let ncloc = run_mark_pass(tree, src, RowMark::Ncloc);
    let comment_lines = run_mark_pass(tree, src, RowMark::CommentLines);
    let functions = tree_sum(tree, root, Weight::Functions);
    let statements = tree_sum(tree, root, Weight::Statements);
    let classes = tree_sum(tree, root, Weight::Classes);
    let cognitive_complexity = match calculate_total_cognitive_complexity(tree) {
        Ok(v) => v,
        Err(e) => { return Err(e) },
    };
    let cyclomatic_complexity = match calculate_cyclomatic_complexity(tree) {
        Ok(v) => v,
        Err(e) => { return Err(e) },
    };
    proof {
        assert(crate::tree::spec_size(tree.nodes@, tree.spec_root()) <= tree.nodes@.len());
    }
    Ok(
        Metrics {
            ncloc: ncloc as i32,
            comment_lines: comment_lines as i32,
            functions: functions as i32,
            statements: statements as i32,
            classes: classes as i32,
            cognitive_complexity,
            cyclomatic_complexity,
        },
    )
}

} // verus!
