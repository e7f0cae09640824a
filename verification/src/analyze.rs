//! The orchestrator: parse once, run every analyzer, package the results.
use vstd::prelude::*;

verus! {

use crate::issue::{DEFAULT_COGNITIVE_THRESHOLD, Issue, find_issues, issue_views};
use crate::parse::parse_rust_code;
use crate::rules::cognitive_complexity_check::{spec_s3776_error_message, spec_s3776_issues};
use crate::rules::parsing_error_check::spec_s2260_issues;
use crate::tree::{AnalyzerError, SyntaxTree};
use crate::visitors::cpd::{CpdToken, calculate_cpd_tokens, spec_cpd, token_views};
use crate::visitors::highlight::{
    HighlightToken,
    RawCapture,
    highlight,
    spec_caps_ok,
    spec_highlight_tokens,
};
use crate::visitors::metrics::{Metrics, RowMark, calculate_metrics, spec_mark_count};
use crate::visitors::cognitive_complexity::spec_cc_total;
use crate::visitors::cyclomatic_complexity::spec_cyclomatic;
use crate::visitors::walk::{Weight, spec_tree_sum};
use vstd::string::StringSliceAdditionalSpecFns;

/// Everything one analysis produces.
#[derive(Debug)]
pub struct Output {
    pub highlight_tokens: Vec<HighlightToken>,
    pub metrics: Metrics,
    pub cpd_tokens: Vec<CpdToken>,
    pub issues: Vec<Issue>,
}

/// How an output relates to a parsed tree of the source: each collection is
/// exactly what its analyzer's specification gives for that tree. The
/// highlight tokens are the mapping of some in-bounds capture list of the
/// grammar's query, exactly as `tokens_from_captures` states it; the tree
/// model does not determine the captures themselves.
pub open spec fn spec_output_matches(t: SyntaxTree, src: Seq<u8>, o: Output) -> bool {
    &&& exists|caps: Seq<RawCapture>|
        #[trigger] spec_caps_ok(caps, src) && o.highlight_tokens@ == spec_highlight_tokens(
            caps,
            src,
        )
    &&& o.metrics.ncloc == spec_mark_count(
        RowMark::Ncloc,
        t.nodes@,
        src,
        t.spec_root(),
        t.n_lines as int,
    )
    &&& o.metrics.comment_lines == spec_mark_count(
        RowMark::CommentLines,
        t.nodes@,
        src,
        t.spec_root(),
        t.n_lines as int,
    )
    &&& o.metrics.functions == spec_tree_sum(Weight::Functions, t.nodes@, t.spec_root())
    &&& o.metrics.statements == spec_tree_sum(Weight::Statements, t.nodes@, t.spec_root())
    &&& o.metrics.classes == spec_tree_sum(Weight::Classes, t.nodes@, t.spec_root())
    &&& o.metrics.cognitive_complexity == spec_cc_total(t.nodes@, t.parents@, t.spec_root())
    &&& o.metrics.cyclomatic_complexity == spec_cyclomatic(t.nodes@)
    &&& token_views(o.cpd_tokens@) == spec_cpd(t.nodes@, t.parents@, src, t.spec_root(), true)
    &&& issue_views(o.issues@) == spec_s3776_issues(
        t.nodes@,
        t.parents@,
        src,
        DEFAULT_COGNITIVE_THRESHOLD as int,
        0,
    ) + spec_s2260_issues(t.nodes@, t.parents@, src, t.spec_root())
}

/// The per-file failure messages of the analyzers, as the components state
/// them; an error of `analyze` carries one of them unchanged.
pub open spec fn spec_analyze_file_error_message(m: Seq<char>) -> bool {
    ||| crate::parse::spec_parse_file_error_message(m)
    ||| m == "a highlight capture lies outside the source"@
    ||| spec_s3776_error_message(m)
    ||| m == "a missing node must have a valid sibling or ancestor"@
}

/// Analyzes one source text: parses it, and returns the highlight tokens,
/// metrics, copy-paste-detection tokens and issues of the parsed tree.
pub fn analyze(source_code: &str) -> (r: Result<Output, AnalyzerError>)
    ensures
        r matches Ok(o) ==> exists|t: SyntaxTree|
            t.wf() && (#[trigger] t.for_source(source_code.spec_bytes())) && spec_output_matches(
                t,
                source_code.spec_bytes(),
                o,
            ),
        r matches Err(e) ==> (e matches AnalyzerError::FileError(m)
            && spec_analyze_file_error_message(m@)) || (e matches AnalyzerError::GlobalError(m2)
            && (m2@ == "failed to initialize parser"@ || m2@
            == "failed to compile the highlight query"@)),
{
    let tree = match parse_rust_code(source_code) {
        Ok(t) => t,
        Err(e) => { return Err(e) },
    };
    let highlight_tokens = match highlight(&tree, source_code) {
        Ok(v) => v,
        Err(e) => { return Err(e) },
    };
    let metrics = match calculate_metrics(&tree, source_code) {
        Ok(m) => m,
        Err(e) => { return Err(e) },
    };
    let cpd_tokens = match calculate_cpd_tokens(&tree, source_code) {
        Ok(v) => v,
        Err(e) => { return Err(e) },
    };
    let issues = match find_issues(&tree, source_code) {
        Ok(v) => v,
        Err(e) => { return Err(e) },
    };
    let output = Output { highlight_tokens, metrics, cpd_tokens, issues };
    proof {
        let src = source_code.spec_bytes();
        let caps = choose|caps: Seq<RawCapture>|
            #[trigger] spec_caps_ok(caps, src) && output.highlight_tokens@
                == spec_highlight_tokens(caps, src);
        assert(spec_caps_ok(caps, src) && output.highlight_tokens@ == spec_highlight_tokens(
            caps,
            src,
        ));
        assert(tree.wf() && tree.for_source(src) && spec_output_matches(tree, src, output));
    }
    Ok(output)
}

} // verus!
