//! Issues found by the rule engine.
use vstd::prelude::*;

verus! {

use crate::location::SonarLocation;
use crate::rules::cognitive_complexity_check::{
    CognitiveComplexityCheck,
    spec_s3776_error_message,
    spec_s3776_issues,
    spec_s3776_ok,
};
use crate::rules::parsing_error_check::{ParsingErrorCheck, spec_s2260_issues, spec_s2260_ok};
use crate::tree::{AnalyzerError, SyntaxTree};
use vstd::string::StringSliceAdditionalSpecFns;

/// A location a rule points at beside the primary one.
#[derive(Debug, PartialEq, Eq, PartialOrd, Ord, Clone)]
pub struct SecondaryLocation {
    pub message: String,
    pub location: SonarLocation,
}

/// One finding of a rule.
#[derive(Debug, PartialEq, Eq, PartialOrd, Ord, Clone)]
pub struct Issue {
    pub rule_key: String,
    pub message: String,
    pub location: SonarLocation,
    pub secondary_locations: Vec<SecondaryLocation>,
}

/// The mathematical shadow of a [`SecondaryLocation`].
#[verifier::ext_equal]
pub struct SpecSecondary {
    pub message: Seq<char>,
    pub location: SonarLocation,
}

/// The mathematical shadow of an [`Issue`].
#[verifier::ext_equal]
pub struct SpecIssue {
    pub rule_key: Seq<char>,
    pub message: Seq<char>,
    pub location: SonarLocation,
    pub secondary_locations: Seq<SpecSecondary>,
}

impl View for SecondaryLocation {
    type V = SpecSecondary;

    open spec fn view(&self) -> SpecSecondary {
        SpecSecondary { message: self.message@, location: self.location }
    }
}

impl View for Issue {
    type V = SpecIssue;

    open spec fn view(&self) -> SpecIssue {
        SpecIssue {
            rule_key: self.rule_key@,
            message: self.message@,
            location: self.location,
            secondary_locations: Seq::new(
                self.secondary_locations@.len(),
                |j: int| self.secondary_locations@[j]@,
            ),
        }
    }
}

pub open spec fn issue_views(s: Seq<Issue>) -> Seq<SpecIssue> {
    Seq::new(s.len(), |j: int| s[j]@)
}

/// The default cognitive-complexity threshold used when the engine is built
/// without an explicit configuration.
pub const DEFAULT_COGNITIVE_THRESHOLD: i32 = 15;

/// The issues the default engine produces for a tree: each rule's issues in
/// registration order. This is a function of the tree and the source alone.
pub open spec fn spec_engine_issues(t: SyntaxTree, src: Seq<u8>) -> Seq<SpecIssue> {
    spec_s3776_issues(t.nodes@, t.parents@, src, DEFAULT_COGNITIVE_THRESHOLD as int, 0)
        + spec_s2260_issues(t.nodes@, t.parents@, src, t.spec_root())
}

/// Law: running the engine twice on the same input produces equal issue
/// sequences. Any two results that meet the engine's contract for the same
/// tree and source agree.
pub proof fn lemma_engine_idempotent(
    first: Seq<Issue>,
    second: Seq<Issue>,
    t: SyntaxTree,
    src: Seq<u8>,
)
    requires
        issue_views(first) == spec_engine_issues(t, src),
        issue_views(second) == spec_engine_issues(t, src),
    ensures
        issue_views(first) == issue_views(second),
{
}

/// Runs the built-in rules over the tree and concatenates their issues, in
/// registration order: the cognitive-complexity rule with the default
/// threshold, then the parsing-error rule.
pub fn find_issues(tree: &SyntaxTree, source_code: &str) -> (r: Result<Vec<Issue>, AnalyzerError>)
    requires
        tree.wf(),
        source_code.spec_bytes().len() == tree.src_len,
    ensures
        r matches Ok(v) ==> issue_views(v@) == spec_engine_issues(
            *tree,
            source_code.spec_bytes(),
        ),
        r is Ok <==> spec_s3776_ok(tree.nodes@, tree.parents@, source_code.spec_bytes(), DEFAULT_COGNITIVE_THRESHOLD as int, 0)
            && spec_s2260_ok(tree.nodes@, tree.parents@, tree.spec_root()),
        r matches Err(e) ==> e matches AnalyzerError::FileError(m) && (spec_s3776_error_message(
            m@,
        ) || m@ == "a missing node must have a valid sibling or ancestor"@),
        !spec_s3776_ok(
            tree.nodes@,
            tree.parents@,
            source_code.spec_bytes(),
            DEFAULT_COGNITIVE_THRESHOLD as int,
            0,
        ) ==> (r matches Err(e) && e matches AnalyzerError::FileError(m)
            && spec_s3776_error_message(m@)),
        r is Err && spec_s3776_ok(
            tree.nodes@,
            tree.parents@,
            source_code.spec_bytes(),
            DEFAULT_COGNITIVE_THRESHOLD as int,
            0,
        ) ==> (r matches Err(e) && e matches AnalyzerError::FileError(m) && m@
            == "a missing node must have a valid sibling or ancestor"@),
{
    let cognitive = CognitiveComplexityCheck::new(DEFAULT_COGNITIVE_THRESHOLD);
    let mut issues = match cognitive.check(tree, source_code) {
        Ok(v) => v,
        Err(e) => { return Err(e) },
    };
    let parsing = ParsingErrorCheck::new();
    let mut more = match parsing.check(tree, source_code) {
        Ok(v) => v,
        Err(e) => { return Err(e) },
    };
    let ghost a = issues@;
    let ghost b = more@;
    issues.append(&mut more);
    proof {
        assert(issue_views(issues@) =~~= issue_views(a) + issue_views(b));
    }
    Ok(issues)
}

} // verus!
