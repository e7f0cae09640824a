//! Syntax highlighting: spans tagged by the grammar's highlight query.
//!
//! The query yields captures; the capture names are mapped to token kinds,
//! and a span captured both as a comment and as a documentation comment is
//! emitted once, as a structured comment.
use vstd::prelude::*;

verus! {

use crate::location::{SonarLocation, TreeSitterLocation, loc_in_source, spec_to_sonar};
use crate::text::{SRC_LIMIT, str_eq};
use crate::tree::{AnalyzerError, SyntaxTree};
use crate::ts_api;
use vstd::string::{StringExecFns, StringSliceAdditionalSpecFns};

/// The token kinds of the reporting API.
#[derive(Debug, PartialOrd, Ord, PartialEq, Eq, Clone, Structural)]
pub enum HighlightTokenType {
    Annotation,
    Constant,
    Comment,
    StructuredComment,
    Keyword,
    String,
    KeywordLight,
    PreprocessDirective,
}

/// One highlighted span.
#[derive(Debug, PartialEq, Eq, PartialOrd, Ord, Clone)]
pub struct HighlightToken {
    pub token_type: HighlightTokenType,
    pub location: SonarLocation,
}

/// One capture of the highlight query, as plain values: the capture name,
/// the captured node's location, and the node's identity.
#[derive(Debug, Clone)]
pub struct RawCapture {
    pub name: String,
    pub start_byte: usize,
    pub end_byte: usize,
    pub start_row: usize,
    pub start_col: usize,
    pub end_row: usize,
    pub end_col: usize,
    pub node_id: usize,
}

impl RawCapture {
    /// The captured node's location.
    pub open spec fn spec_loc(self) -> TreeSitterLocation {
        TreeSitterLocation {
            start_byte: self.start_byte,
            end_byte: self.end_byte,
            start_row: self.start_row,
            start_col: self.start_col,
            end_row: self.end_row,
            end_col: self.end_col,
        }
    }

    fn loc(&self) -> (r: TreeSitterLocation)
        ensures
            r == self.spec_loc(),
    {
        TreeSitterLocation {
            start_byte: self.start_byte,
            end_byte: self.end_byte,
            start_row: self.start_row,
            start_col: self.start_col,
            end_row: self.end_row,
            end_col: self.end_col,
        }
    }
}

/// The token kind a capture name contributes, if any.
pub open spec fn spec_from_capture_name(s: Seq<char>) -> Option<HighlightTokenType> {
    if s == "keyword"@ {
        Some(HighlightTokenType::Keyword)
    } else if s == "comment"@ {
        Some(HighlightTokenType::Comment)
    } else if s == "string"@ {
        Some(HighlightTokenType::String)
    } else if s == "constant.builtin"@ {
        Some(HighlightTokenType::Constant)
    } else if s == "comment.documentation"@ {
        Some(HighlightTokenType::StructuredComment)
    } else {
        None
    }
}

impl HighlightTokenType {
    /// Maps a capture name of the highlight query to a token kind; built-in
    /// constants are boolean, float and integer literals.
    pub fn from_capture_name(name: &str) -> (r: Option<HighlightTokenType>)
        ensures
            r == spec_from_capture_name(name@),
    {
        if str_eq(name, "keyword") {
            Some(HighlightTokenType::Keyword)
        } else if str_eq(name, "comment") {
            Some(HighlightTokenType::Comment)
        } else if str_eq(name, "string") {
            Some(HighlightTokenType::String)
        } else if str_eq(name, "constant.builtin") {
            Some(HighlightTokenType::Constant)
        } else if str_eq(name, "comment.documentation") {
            Some(HighlightTokenType::StructuredComment)
        } else {
            None
        }
    }

    /// The reporting API's name of the token kind; structured comments share
    /// the comment name.
    pub fn to_sonar_api_name(&self) -> (r: &'static str)
        ensures
            self == HighlightTokenType::Annotation ==> r@ == "ANNOTATION"@,
            self == HighlightTokenType::Constant ==> r@ == "CONSTANT"@,
            self == HighlightTokenType::Comment ==> r@ == "COMMENT"@,
            self == HighlightTokenType::StructuredComment ==> r@ == "COMMENT"@,
            self == HighlightTokenType::Keyword ==> r@ == "KEYWORD"@,
            self == HighlightTokenType::String ==> r@ == "STRING"@,
            self == HighlightTokenType::KeywordLight ==> r@ == "KEYWORD_LIGHT"@,
            self == HighlightTokenType::PreprocessDirective ==> r@ == "PREPROCESS_DIRECTIVE"@,
    {
        match self {
            HighlightTokenType::Annotation => "ANNOTATION",
            HighlightTokenType::Constant => "CONSTANT",
            HighlightTokenType::Comment => "COMMENT",
            HighlightTokenType::StructuredComment => "COMMENT",
            HighlightTokenType::Keyword => "KEYWORD",
            HighlightTokenType::String => "STRING",
            HighlightTokenType::KeywordLight => "KEYWORD_LIGHT",
            HighlightTokenType::PreprocessDirective => "PREPROCESS_DIRECTIVE",
        }
    }
}

/// The mapped kind of capture `k`.
pub open spec fn spec_cap_kind(caps: Seq<RawCapture>, k: int) -> Option<HighlightTokenType> {
    spec_from_capture_name(caps[k].name@)
}

/// Every capture that contributes a token lies inside the source.
pub open spec fn spec_caps_ok(caps: Seq<RawCapture>, src: Seq<u8>) -> bool {
    forall|k: int|
        0 <= k < caps.len() && spec_cap_kind(caps, k) is Some ==> loc_in_source(
            (#[trigger] caps[k]).spec_loc(),
            src,
        )
}

/// Whether some capture marks `id` as a documentation comment.
pub open spec fn spec_is_doc_id(caps: Seq<RawCapture>, id: usize) -> bool {
    exists|j: int|
        0 <= j < caps.len() && spec_cap_kind(caps, j) == Some(HighlightTokenType::StructuredComment)
            && (#[trigger] caps[j]).node_id == id
}

/// Whether capture `k` is the first comment capture of its node.
pub open spec fn spec_first_comment(caps: Seq<RawCapture>, k: int) -> bool {
    spec_cap_kind(caps, k) == Some(HighlightTokenType::Comment) && forall|j: int|
        0 <= j < k ==> !(spec_cap_kind(caps, j) == Some(HighlightTokenType::Comment) && (
        #[trigger] caps[j]).node_id == caps[k].node_id)
}

/// The tokens of the first pass, from capture `k` on: every capture that
/// maps to a kind other than plain comment.
pub open spec fn spec_first_tokens(caps: Seq<RawCapture>, src: Seq<u8>, k: int) -> Seq<
    HighlightToken,
>
    decreases caps.len() - k,
{
    if k < 0 || k >= caps.len() {
        Seq::empty()
    } else {
        (match spec_cap_kind(caps, k) {
            Some(tt) => {
                if tt == HighlightTokenType::Comment {
                    Seq::empty()
                } else {
                    seq![
                        HighlightToken {
                            token_type: tt,
                            location: spec_to_sonar(caps[k].spec_loc(), src),
                        },
                    ]
                }
            },
            None => Seq::empty(),
        }) + spec_first_tokens(caps, src, k + 1)
    }
}

/// The tokens of the second pass, from capture `k` on: one comment token per
/// comment-captured node that no capture marks as a documentation comment.
pub open spec fn spec_comment_tokens(caps: Seq<RawCapture>, src: Seq<u8>, k: int) -> Seq<
    HighlightToken,
>
    decreases caps.len() - k,
{
    if k < 0 || k >= caps.len() {
        Seq::empty()
    } else {
        (if spec_first_comment(caps, k) && !spec_is_doc_id(caps, caps[k].node_id) {
            seq![
                HighlightToken {
                    token_type: HighlightTokenType::Comment,
                    location: spec_to_sonar(caps[k].spec_loc(), src),
                },
            ]
        } else {
            Seq::empty()
        }) + spec_comment_tokens(caps, src, k + 1)
    }
}

/// All highlight tokens of a capture list.
pub open spec fn spec_highlight_tokens(caps: Seq<RawCapture>, src: Seq<u8>) -> Seq<HighlightToken> {
    spec_first_tokens(caps, src, 0) + spec_comment_tokens(caps, src, 0)
}

/// Turns the query's captures into highlight tokens: one token per capture
/// of a non-comment kind, and exactly one comment token per comment span
/// that is not also captured as a documentation comment. Fails when a
/// contributing capture lies outside the source.
#[verifier::loop_isolation(false)]
#[verifier::rlimit(100)]
pub fn tokens_from_captures(captures: &Vec<RawCapture>, source_code: &[u8]) -> (r: Result<
    Vec<HighlightToken>,
    AnalyzerError,
>)
    requires
        source_code@.len() <= SRC_LIMIT,
    ensures
        r is Ok <==> spec_caps_ok(captures@, source_code@),
        r matches Ok(v) ==> v@ == spec_highlight_tokens(captures@, source_code@),
        r matches Err(e) ==> e matches AnalyzerError::FileError(m) && m@
            == "a highlight capture lies outside the source"@,
{
    let n = captures.len();
    let ghost caps = captures@;
    let ghost src = source_code@;
    // bounds check for every contributing capture
    let mut k: usize = 0;
    while k < n
        invariant
            k <= n,
            forall|j: int|
                0 <= j < k && spec_cap_kind(caps, j) is Some ==> loc_in_source(
                    (#[trigger] caps[j]).spec_loc(),
                    src,
                ),
        decreases n - k,
    {
        let c = &captures[k];
        if HighlightTokenType::from_capture_name(c.name.as_str()).is_some() {
            if !(c.start_col <= c.start_byte && c.start_byte <= source_code.len() && c.end_col
                <= c.end_byte && c.end_byte <= source_code.len() && c.start_row <= SRC_LIMIT
                && c.end_row <= SRC_LIMIT) {
                proof {
                    assert(!spec_caps_ok(caps, src));
                }
                return Err(
                    AnalyzerError::FileError(
                        String::from_str("a highlight capture lies outside the source"),
                    ),
                );
            }
        }
        k = k + 1;
    }
    let mut out: Vec<HighlightToken> = Vec::new();
    // first pass: every non-comment capture
    let ghost first_full = spec_first_tokens(caps, src, 0);
    k = 0;
    proof {
        assert(out@ =~= first_full.take(first_full.len() - spec_first_tokens(caps, src, 0).len()));
    }
    while k < n
        invariant
            k <= n,
            out@ == first_full.take(first_full.len() - spec_first_tokens(caps, src, k as int).len()),
            first_full == first_full.take(
                first_full.len() - spec_first_tokens(caps, src, k as int).len(),
            ) + spec_first_tokens(caps, src, k as int),
        decreases n - k,
    {
        let c = &captures[k];
        match HighlightTokenType::from_capture_name(c.name.as_str()) {
            Some(tt) => {
                if tt != HighlightTokenType::Comment {
                    let location = c.loc().to_sonar_location(source_code);
                    out.push(HighlightToken { token_type: tt, location });
                }
            },
            None => {},
        }
        proof {
            let rest1 = spec_first_tokens(caps, src, k + 1);
            assert(spec_first_tokens(caps, src, k as int) =~= (match spec_cap_kind(
                caps,
                k as int,
            ) {
                Some(tt) => {
                    if tt == HighlightTokenType::Comment {
                        Seq::<HighlightToken>::empty()
                    } else {
                        seq![
                            HighlightToken {
                                token_type: tt,
                                location: spec_to_sonar(caps[k as int].spec_loc(), src),
                            },
                        ]
                    }
                },
                None => Seq::<HighlightToken>::empty(),
            }) + rest1);
            assert(first_full =~= first_full.take(first_full.len() - rest1.len()) + rest1);
            assert(out@ =~= first_full.take(first_full.len() - rest1.len()));
        }
        k = k + 1;
    }
    proof {
        assert(spec_first_tokens(caps, src, n as int) =~= Seq::<HighlightToken>::empty());
        assert(out@ =~= first_full);
    }
    // second pass: comment captures not also captured as documentation
    let ghost second_full = spec_comment_tokens(caps, src, 0);
    k = 0;
    while k < n
        invariant
            k <= n,
            out@ == first_full + second_full.take(
                second_full.len() - spec_comment_tokens(caps, src, k as int).len(),
            ),
            second_full == second_full.take(
                second_full.len() - spec_comment_tokens(caps, src, k as int).len(),
            ) + spec_comment_tokens(caps, src, k as int),
        decreases n - k,
    {
        let c = &captures[k];
        let is_comment = match HighlightTokenType::from_capture_name(c.name.as_str()) {
            Some(tt) => tt == HighlightTokenType::Comment,
            None => false,
        };
        let mut emit = is_comment;
        if is_comment {
            // first occurrence of this node among the comment captures?
            let mut j: usize = 0;
            while j < k
                invariant
                    j <= k,
                    emit == (forall|t: int|
                        0 <= t < j ==> !(spec_cap_kind(caps, t) == Some(
                            HighlightTokenType::Comment,
                        ) && (#[trigger] caps[t]).node_id == caps[k as int].node_id)),
                decreases k - j,
            {
                let cj = &captures[j];
                let cj_comment = match HighlightTokenType::from_capture_name(cj.name.as_str()) {
                    Some(tt) => tt == HighlightTokenType::Comment,
                    None => false,
                };
                if cj_comment && cj.node_id == c.node_id {
                    emit = false;
                    proof {
                        assert(!(forall|t: int|
                            0 <= t < j + 1 ==> !(spec_cap_kind(caps, t) == Some(
                                HighlightTokenType::Comment,
                            ) && (#[trigger] caps[t]).node_id == caps[k as int].node_id)));
                    }
                }
                j = j + 1;
            }
        }
        if emit {
            // captured anywhere as a documentation comment?
            let mut j: usize = 0;
            let mut is_doc = false;
            while j < n
                invariant
                    j <= n,
                    is_doc == (exists|t: int|
                        0 <= t < j && spec_cap_kind(caps, t) == Some(
                            HighlightTokenType::StructuredComment,
                        ) && (#[trigger] caps[t]).node_id == caps[k as int].node_id),
                decreases n - j,
            {
                let cj = &captures[j];
                let cj_doc = match HighlightTokenType::from_capture_name(cj.name.as_str()) {
                    Some(tt) => tt == HighlightTokenType::StructuredComment,
                    None => false,
                };
                if cj_doc && cj.node_id == c.node_id {
                    is_doc = true;
                }
                j = j + 1;
            }
            if !is_doc {
                let location = c.loc().to_sonar_location(source_code);
                out.push(HighlightToken { token_type: HighlightTokenType::Comment, location });
            }
            proof {
                assert(spec_is_doc_id(caps, caps[k as int].node_id) == is_doc);
            }
        }
        proof {
            let rest1 = spec_comment_tokens(caps, src, k + 1);
            assert(spec_comment_tokens(caps, src, k as int) =~= (if spec_first_comment(
                caps,
                k as int,
            ) && !spec_is_doc_id(caps, caps[k as int].node_id) {
                seq![
                    HighlightToken {
                        token_type: HighlightTokenType::Comment,
                        location: spec_to_sonar(caps[k as int].spec_loc(), src),
                    },
                ]
            } else {
                Seq::<HighlightToken>::empty()
            }) + rest1);
            assert(second_full =~= second_full.take(second_full.len() - rest1.len()) + rest1);
            assert(out@ =~= first_full + second_full.take(second_full.len() - rest1.len()));
        }
        k = k + 1;
    }
    proof {
        assert(spec_comment_tokens(caps, src, n as int) =~= Seq::<HighlightToken>::empty());
        assert(out@ =~= spec_highlight_tokens(caps, src));
    }
    Ok(out)
}

/// Runs the grammar's highlight query over the tree and maps its captures to
/// highlight tokens. The exact relation between the captures and the tokens
/// is the contract of [`tokens_from_captures`]; this function only adds the
/// query run, and fails with a `GlobalError` when the query cannot be
/// compiled.
pub fn highlight(tree: &SyntaxTree, source_code: &str) -> (r: Result<
    Vec<HighlightToken>,
    AnalyzerError,
>)
    requires
        tree.wf(),
        source_code.spec_bytes().len() == tree.src_len,
    ensures
        r matches Ok(v) ==> exists|caps: Seq<RawCapture>|
            #[trigger] spec_caps_ok(caps, source_code.spec_bytes()) && v@ == spec_highlight_tokens(
                caps,
                source_code.spec_bytes(),
            ),
        r matches Err(e) ==> (e matches AnalyzerError::GlobalError(m) && m@
            == "failed to compile the highlight query"@) || (e matches AnalyzerError::FileError(
            m2,
        ) && m2@ == "a highlight capture lies outside the source"@),
{
    let query = match ts_api::ts_highlight_query() {
        Some(q) => q,
        None => {
            return Err(
                AnalyzerError::GlobalError(String::from_str("failed to compile the highlight query")),
            );
        },
    };
    let captures = ts_api::ts_query_captures(&query, tree.ts_tree(), source_code);
    let r = tokens_from_captures(&captures, source_code.as_bytes());
    proof {
        if r is Ok {
            assert(spec_caps_ok(captures@, source_code.spec_bytes()) && r.unwrap()@
                == spec_highlight_tokens(captures@, source_code.spec_bytes()));
        }
    }
    r
}

/// Whether capture `k` emits the comment token of its node: it is the first
/// comment capture of that node, and no capture marks the node as a
/// documentation comment.
pub open spec fn spec_emits_comment(caps: Seq<RawCapture>, k: int) -> bool {
    0 <= k < caps.len() && spec_first_comment(caps, k) && !spec_is_doc_id(caps, caps[k].node_id)
}

/// Law, first half: no two emitted comment tokens stand for the same node.
/// Two distinct captures that both emit a comment token belong to distinct
/// nodes.
pub proof fn lemma_comment_tokens_distinct(caps: Seq<RawCapture>, k1: int, k2: int)
    requires
        spec_emits_comment(caps, k1),
        spec_emits_comment(caps, k2),
        k1 != k2,
    ensures
        caps[k1].node_id != caps[k2].node_id,
{
}

/// Law, second half: every node captured as a comment is represented
/// exactly once — as a structured comment when some capture marks it as
/// documentation, and otherwise by exactly one emitted comment token,
/// the first comment capture of that node.
pub proof fn lemma_comment_represented(caps: Seq<RawCapture>, j: int)
    requires
        0 <= j < caps.len(),
        spec_cap_kind(caps, j) == Some(HighlightTokenType::Comment),
        !spec_is_doc_id(caps, caps[j].node_id),
    ensures
        exists|k: int|
            0 <= k <= j && #[trigger] spec_emits_comment(caps, k) && caps[k].node_id
                == caps[j].node_id,
    decreases j,
{
    if spec_first_comment(caps, j) {
        assert(spec_emits_comment(caps, j));
    } else {
        let j2 = choose|j2: int|
            0 <= j2 < j && spec_cap_kind(caps, j2) == Some(HighlightTokenType::Comment) && (
            #[trigger] caps[j2]).node_id == caps[j].node_id;
        lemma_comment_represented(caps, j2);
    }
}

} // verus!
