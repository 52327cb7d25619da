//! What an audit works on and what it produces.
use crate::text;
use vstd::prelude::*;

verus! {

/// A vulnerability to look for, with the guidance for finding it.
#[derive(Debug, Clone)]
pub struct VulnerabilitySkill {
    pub id: String,
    pub name: String,
    pub severity: String,
    pub description: String,
    pub prompt_fragment: String,
    pub examples: Vec<String>,
    pub false_positives: Vec<String>,
    pub references: Vec<String>,
    pub tags: Vec<String>,
    pub confidence_hint: Option<String>,
    pub guidance_markdown: String,
}

/// The prompt for one skill.
#[derive(Debug, Clone)]
pub struct MiniPrompt {
    pub skill_id: String,
    pub text: String,
}

/// What a prompt says, and for which skill.
pub struct PromptView {
    pub skill_id: Seq<char>,
    pub text: Seq<char>,
}

impl View for MiniPrompt {
    type V = PromptView;

    open spec fn view(&self) -> PromptView {
        PromptView { skill_id: self.skill_id@, text: self.text@ }
    }
}

/// The outcome of one skill.
#[derive(Debug, Clone)]
pub struct SkillIterationResult {
    pub skill_id: String,
    pub status: String,
    pub findings: Vec<VulnerabilityFinding>,
    pub next_prompt: Option<MiniPrompt>,
    pub token_usage: TokenUsage,
}

/// What the outcome of one skill says.
pub struct IterationView {
    pub skill_id: Seq<char>,
    pub status: Seq<char>,
    pub findings: Seq<FindingView>,
    pub next_prompt: Option<PromptView>,
    pub token_usage: TokenUsage,
}

/// What a sequence of findings says.
pub open spec fn finding_views(findings: Seq<VulnerabilityFinding>) -> Seq<FindingView> {
    Seq::new(findings.len(), |i: int| findings[i]@)
}

impl View for SkillIterationResult {
    type V = IterationView;

    open spec fn view(&self) -> IterationView {
        IterationView {
            skill_id: self.skill_id@,
            status: self.status@,
            findings: finding_views(self.findings@),
            next_prompt: match self.next_prompt {
                Some(prompt) => Some(prompt@),
                None => None,
            },
            token_usage: self.token_usage,
        }
    }
}

/// Tokens that a provider billed. A figure that the provider did not report is
/// absent, which is not the same as zero.
#[derive(Debug, Clone, Copy, PartialEq, Eq, Structural)]
pub struct TokenUsage {
    pub input_tokens: u64,
    pub output_tokens: u64,
    pub cache_read_input_tokens: Option<u64>,
    pub cache_creation_input_tokens: Option<u64>,
    pub reasoning_tokens: Option<u64>,
}

/// The sum, held at the largest `u64`.
pub open spec fn saturated(a: u64, b: u64) -> u64 {
    if a + b > u64::MAX {
        u64::MAX
    } else {
        (a + b) as u64
    }
}

/// The sum of the figures that are present.
pub open spec fn optional_sum(a: Option<u64>, b: Option<u64>) -> Option<u64> {
    match (a, b) {
        (Some(x), Some(y)) => Some(saturated(x, y)),
        (Some(x), None) => Some(x),
        (None, y) => y,
    }
}

impl TokenUsage {
    /// Nothing used and nothing reported.
    pub open spec fn nothing() -> TokenUsage {
        TokenUsage {
            input_tokens: 0,
            output_tokens: 0,
            cache_read_input_tokens: None,
            cache_creation_input_tokens: None,
            reasoning_tokens: None,
        }
    }

    /// The two usages together.
    pub open spec fn plus(self, other: TokenUsage) -> TokenUsage {
        TokenUsage {
            input_tokens: saturated(self.input_tokens, other.input_tokens),
            output_tokens: saturated(self.output_tokens, other.output_tokens),
            cache_read_input_tokens: optional_sum(
                self.cache_read_input_tokens,
                other.cache_read_input_tokens,
            ),
            cache_creation_input_tokens: optional_sum(
                self.cache_creation_input_tokens,
                other.cache_creation_input_tokens,
            ),
            reasoning_tokens: optional_sum(self.reasoning_tokens, other.reasoning_tokens),
        }
    }

    /// Whether nothing was used and nothing reported.
    pub fn is_empty(&self) -> (r: bool)
        ensures
            r == (*self == TokenUsage::nothing()),
    {
        self.input_tokens == 0 && self.output_tokens == 0 && self.cache_read_input_tokens.is_none()
            && self.cache_creation_input_tokens.is_none() && self.reasoning_tokens.is_none()
    }

    /// Counts `other` in.
    pub fn add(&mut self, other: &TokenUsage)
        ensures
            *final(self) == old(self).plus(*other),
    {
        self.input_tokens = self.input_tokens.saturating_add(other.input_tokens);
        self.output_tokens = self.output_tokens.saturating_add(other.output_tokens);
        self.cache_read_input_tokens = sum_optional(
            self.cache_read_input_tokens,
            other.cache_read_input_tokens,
        );
        self.cache_creation_input_tokens = sum_optional(
            self.cache_creation_input_tokens,
            other.cache_creation_input_tokens,
        );
        self.reasoning_tokens = sum_optional(self.reasoning_tokens, other.reasoning_tokens);
    }
}

impl Default for TokenUsage {
    fn default() -> (r: Self)
        ensures
            r == TokenUsage::nothing(),
    {
        TokenUsage {
            input_tokens: 0,
            output_tokens: 0,
            cache_read_input_tokens: None,
            cache_creation_input_tokens: None,
            reasoning_tokens: None,
        }
    }
}

/// The sum of the figures that are present.
pub fn sum_optional(a: Option<u64>, b: Option<u64>) -> (r: Option<u64>)
    ensures
        r == optional_sum(a, b),
{
    match (a, b) {
        (Some(x), Some(y)) => Some(x.saturating_add(y)),
        (Some(x), None) => Some(x),
        (None, Some(y)) => Some(y),
        (None, None) => None,
    }
}

/// Usages may be counted in any order and grouping, and counting in nothing
/// changes nothing.
pub proof fn law_usage_is_a_commutative_monoid(a: TokenUsage, b: TokenUsage, c: TokenUsage)
    ensures
        a.plus(b) == b.plus(a),
        a.plus(b).plus(c) == a.plus(b.plus(c)),
        a.plus(TokenUsage::nothing()) == a,
{
}

/// A sum is empty exactly where both of its parts are.
pub proof fn law_usage_is_empty_only_of_empty_parts(a: TokenUsage, b: TokenUsage)
    ensures
        a.plus(b) == TokenUsage::nothing() <==> a == TokenUsage::nothing() && b
            == TokenUsage::nothing(),
{
}

/// A vulnerability that was found.
#[derive(Debug, Clone)]
pub struct VulnerabilityFinding {
    pub title: String,
    pub severity: String,
    pub summary: String,
    pub evidence: Vec<String>,
    pub recommendation: String,
    pub file: Option<String>,
    pub line: Option<usize>,
}

/// What a finding says.
pub struct FindingView {
    pub title: Seq<char>,
    pub severity: Seq<char>,
    pub summary: Seq<char>,
    pub evidence: Seq<Seq<char>>,
    pub recommendation: Seq<char>,
    pub file: Option<Seq<char>>,
    pub line: Option<usize>,
}

impl View for VulnerabilityFinding {
    type V = FindingView;

    open spec fn view(&self) -> FindingView {
        FindingView {
            title: self.title@,
            severity: self.severity@,
            summary: self.summary@,
            evidence: text::texts(self.evidence@),
            recommendation: self.recommendation@,
            file: text::opt_text(self.file),
            line: self.line,
        }
    }
}

/// Everything that an audit knows so far.
#[derive(Debug, Clone)]
pub struct AnalysisStateJson {
    pub version: String,
    pub source_files: Vec<String>,
    pub provider: ProviderSpec,
    pub permission_prompt: PermissionPromptSpec,
    pub ast: Option<AstMetadata>,
    pub validator_context: ValidatorContextMap,
    pub iterations: Vec<SkillIterationResult>,
    pub total_token_usage: TokenUsage,
}

/// Where a syntax tree snapshot lies and what made it.
#[derive(Debug, Clone)]
pub struct AstMetadata {
    pub path: String,
    pub fingerprint: String,
    pub generated_at: String,
    pub tool: AstToolMetadata,
}

#[derive(Debug, Clone)]
pub struct AstToolMetadata {
    pub name: String,
    pub version: String,
}

/// The validators of a project.
#[derive(Debug, Clone)]
pub struct ValidatorContextMap {
    pub validators: Vec<ValidatorContextEntry>,
}

impl Default for ValidatorContextMap {
    fn default() -> (r: Self)
        ensures
            r.validators@.len() == 0,
    {
        ValidatorContextMap { validators: Vec::new() }
    }
}

#[derive(Debug, Clone)]
pub struct ValidatorContextEntry {
    pub id: String,
    pub module: String,
    pub source_file: String,
    pub source_span: Option<SourceSpan>,
    pub handlers: Vec<ValidatorHandlerContext>,
}

#[derive(Debug, Clone)]
pub struct SourceSpan {
    pub start_line: usize,
    pub end_line: usize,
}

#[derive(Debug, Clone)]
pub struct ValidatorHandlerContext {
    pub name: String,
    pub parameters: Vec<ValidatorParameterContext>,
}

#[derive(Debug, Clone)]
pub struct ValidatorParameterContext {
    pub name: String,
    pub type_text: String,
}

/// Which provider did an audit.
#[derive(Debug, Clone)]
pub struct ProviderSpec {
    pub name: String,
    pub model: Option<String>,
    pub notes: String,
}

/// What a model may ask to read.
#[derive(Debug, Clone)]
pub struct PermissionPromptSpec {
    pub shell: String,
    pub allowed_commands: Vec<String>,
    pub scope_rules: Vec<String>,
    pub workspace_root: String,
    pub read_scope: String,
    pub interactive_permissions: bool,
    pub allowed_paths: Vec<String>,
}

/// The workspace root of a permission prompt that names none.
pub fn default_workspace_root() -> (r: String)
    ensures
        r@ == "."@,
{
    ".".to_owned()
}

/// The read scope of a permission prompt that names none.
pub fn default_read_scope() -> (r: String)
    ensures
        r@ == "workspace"@,
{
    "workspace".to_owned()
}

/// The final report.
#[derive(Debug, Clone)]
pub struct VulnerabilityReportSpec {
    pub title: String,
    pub generated_at: String,
    pub findings: Vec<VulnerabilityFinding>,
}

/// Each figure is counted by itself: two figures that are both there make their sum,
/// where it fits, and the largest number where it does not; a figure that only one
/// side reports is taken as it stands, and one that neither reports stays absent.
pub proof fn law_figures_are_counted_by_themselves(a: TokenUsage, b: TokenUsage)
    ensures
        a.input_tokens + b.input_tokens <= u64::MAX ==> a.plus(b).input_tokens == a.input_tokens
            + b.input_tokens,
        a.input_tokens + b.input_tokens > u64::MAX ==> a.plus(b).input_tokens == u64::MAX,
        a.output_tokens + b.output_tokens <= u64::MAX ==> a.plus(b).output_tokens
            == a.output_tokens + b.output_tokens,
        a.output_tokens + b.output_tokens > u64::MAX ==> a.plus(b).output_tokens == u64::MAX,
        is_sum_of_reported(
            a.cache_read_input_tokens,
            b.cache_read_input_tokens,
            a.plus(b).cache_read_input_tokens,
        ),
        is_sum_of_reported(
            a.cache_creation_input_tokens,
            b.cache_creation_input_tokens,
            a.plus(b).cache_creation_input_tokens,
        ),
        is_sum_of_reported(a.reasoning_tokens, b.reasoning_tokens, a.plus(b).reasoning_tokens),
{
}

/// Whether `sum` is what two figures, each of them reported or not, come to.
pub open spec fn is_sum_of_reported(a: Option<u64>, b: Option<u64>, sum: Option<u64>) -> bool {
    &&& a is None ==> sum == b
    &&& b is None ==> sum == a
    &&& a is Some && b is Some ==> sum is Some && sum->0 as int == if a->0 + b->0 <= u64::MAX {
        a->0 + b->0
    } else {
        u64::MAX as int
    }
}

} // verus!
