//! Content filters for text entering and leaving a model.
//!
//! A [`FilterEngine`] inspects input text for prompt-injection and jailbreak
//! phrasing, and output text for e-mail addresses and secrets, and reports a
//! [`FilterVerdict`]: the strongest action to take plus the violations found.

use vstd::prelude::*;

use crate::risk::{finds_any, injection_phrases, jailbreak_phrases};
use crate::text::{chars_of, contains_chars, has_sub, lowercase, owned, to_lowercase};

verus! {

/// Which input checks run.
#[derive(Debug, Clone)]
pub struct InputFiltersConfig {
    /// Master switch for input filtering.
    pub enabled: bool,
    /// Block prompt-injection phrasing.
    pub detect_injection: bool,
    /// Warn on jailbreak phrasing.
    pub detect_jailbreak: bool,
}

impl Default for InputFiltersConfig {
    fn default() -> (r: Self)
        ensures
            !r.enabled && !r.detect_injection && !r.detect_jailbreak,
    {
        InputFiltersConfig { enabled: false, detect_injection: false, detect_jailbreak: false }
    }
}

/// Which output checks run.
#[derive(Debug, Clone)]
pub struct OutputFiltersConfig {
    /// Master switch for output filtering.
    pub enabled: bool,
    /// Redact text that looks like it holds an e-mail address.
    pub scan_pii: bool,
    /// Block text that looks like it holds a secret.
    pub scan_secrets: bool,
}

impl Default for OutputFiltersConfig {
    fn default() -> (r: Self)
        ensures
            !r.enabled && !r.scan_pii && !r.scan_secrets,
    {
        OutputFiltersConfig { enabled: false, scan_pii: false, scan_secrets: false }
    }
}

/// Input and output filter settings.
#[derive(Debug, Clone)]
pub struct FiltersConfig {
    /// Checks on text sent to the model.
    pub input: InputFiltersConfig,
    /// Checks on text the model returns.
    pub output: OutputFiltersConfig,
}

impl Default for FiltersConfig {
    fn default() -> (r: Self)
        ensures
            !r.input.enabled && !r.input.detect_injection && !r.input.detect_jailbreak,
            !r.output.enabled && !r.output.scan_pii && !r.output.scan_secrets,
    {
        FiltersConfig { input: InputFiltersConfig::default(), output: OutputFiltersConfig::default() }
    }
}

/// What a filter pass decided, from weakest to strongest.
#[derive(Debug, Clone, Copy, PartialEq, Eq, Structural)]
pub enum FilterDecision {
    Allow,
    Warn,
    Redact,
    Block,
}

impl Default for FilterDecision {
    fn default() -> (r: Self)
        ensures
            r == FilterDecision::Allow,
    {
        FilterDecision::Allow
    }
}

impl FilterDecision {
    /// The lowercase name of the decision.
    pub fn as_str(self) -> (r: &'static str)
        ensures
            r@ == match self {
                FilterDecision::Allow => "allow"@,
                FilterDecision::Warn => "warn"@,
                FilterDecision::Redact => "redact"@,
                FilterDecision::Block => "block"@,
            },
    {
        match self {
            FilterDecision::Allow => "allow",
            FilterDecision::Warn => "warn",
            FilterDecision::Redact => "redact",
            FilterDecision::Block => "block",
        }
    }
}

/// A single finding of a filter pass.
#[derive(Debug, Clone, PartialEq, Eq)]
pub enum FilterViolation {
    PromptInjection(String),
    Jailbreak(String),
    Pii(String),
    Secret(String),
    Custom { code: String, message: String },
}

/// The mathematical model of a [`FilterViolation`]: its kind and its text.
pub enum ViolationView {
    PromptInjection(Seq<char>),
    Jailbreak(Seq<char>),
    Pii(Seq<char>),
    Secret(Seq<char>),
    Custom(Seq<char>, Seq<char>),
}

impl View for FilterViolation {
    type V = ViolationView;

    open spec fn view(&self) -> ViolationView {
        match self {
            FilterViolation::PromptInjection(m) => ViolationView::PromptInjection(m@),
            FilterViolation::Jailbreak(m) => ViolationView::Jailbreak(m@),
            FilterViolation::Pii(m) => ViolationView::Pii(m@),
            FilterViolation::Secret(m) => ViolationView::Secret(m@),
            FilterViolation::Custom { code, message } => ViolationView::Custom(code@, message@),
        }
    }
}

/// The text a violation is shown as: its message, or `code: message` for a
/// custom one.
pub open spec fn violation_text(v: ViolationView) -> Seq<char> {
    match v {
        ViolationView::PromptInjection(m) => m,
        ViolationView::Jailbreak(m) => m,
        ViolationView::Pii(m) => m,
        ViolationView::Secret(m) => m,
        ViolationView::Custom(c, m) => c + ": "@ + m,
    }
}

impl FilterViolation {
    /// The text of the violation: its message, or `code: message` for a
    /// custom one.
    pub fn message(&self) -> (r: String)
        ensures
            r@ == violation_text(self@),
    {
        match self {
            FilterViolation::PromptInjection(m) => m.clone(),
            FilterViolation::Jailbreak(m) => m.clone(),
            FilterViolation::Pii(m) => m.clone(),
            FilterViolation::Secret(m) => m.clone(),
            FilterViolation::Custom { code, message } => crate::text::join3(
                code.as_str(),
                ": ",
                message.as_str(),
            ),
        }
    }
}

/// The outcome of a filter pass.
#[derive(Debug, Clone, PartialEq, Eq)]
pub struct FilterVerdict {
    /// The action to take.
    pub decision: FilterDecision,
    /// Everything that was found, in the order found.
    pub violations: Vec<FilterViolation>,
}

/// The mathematical model of a [`FilterVerdict`].
pub struct VerdictView {
    pub decision: FilterDecision,
    pub violations: Seq<ViolationView>,
}

impl View for FilterVerdict {
    type V = VerdictView;

    open spec fn view(&self) -> VerdictView {
        VerdictView {
            decision: self.decision,
            violations: self.violations@.map_values(|v: FilterViolation| v@),
        }
    }
}

/// The decision after a `warn` or `redact` finding: it replaces the current
/// decision unless that is `block`.
pub open spec fn softened(current: FilterDecision, next: FilterDecision) -> FilterDecision {
    if current == FilterDecision::Block {
        FilterDecision::Block
    } else {
        next
    }
}

impl FilterVerdict {
    /// Nothing found: allow.
    pub fn allow() -> (r: Self)
        ensures
            r@ == (VerdictView { decision: FilterDecision::Allow, violations: Seq::empty() }),
    {
        let r = FilterVerdict { decision: FilterDecision::Allow, violations: Vec::new() };
        assert(r@.violations =~= Seq::<ViolationView>::empty());
        r
    }

    /// Record a finding that blocks.
    pub fn block(&mut self, violation: FilterViolation)
        ensures
            final(self)@ == (VerdictView {
                decision: FilterDecision::Block,
                violations: old(self)@.violations.push(violation@),
            }),
    {
        let ghost before = self.violations@;
        self.decision = FilterDecision::Block;
        self.violations.push(violation);
        assert(self@.violations =~= before.map_values(|v: FilterViolation| v@).push(violation@));
    }

    /// Record a finding that warns (unless already blocked).
    pub fn warn(&mut self, violation: FilterViolation)
        ensures
            final(self)@ == (VerdictView {
                decision: softened(old(self).decision, FilterDecision::Warn),
                violations: old(self)@.violations.push(violation@),
            }),
    {
        let ghost before = self.violations@;
        if self.decision != FilterDecision::Block {
            self.decision = FilterDecision::Warn;
        }
        self.violations.push(violation);
        assert(self@.violations =~= before.map_values(|v: FilterViolation| v@).push(violation@));
    }

    /// Record a finding that redacts (unless already blocked).
    pub fn redact(&mut self, violation: FilterViolation)
        ensures
            final(self)@ == (VerdictView {
                decision: softened(old(self).decision, FilterDecision::Redact),
                violations: old(self)@.violations.push(violation@),
            }),
    {
        let ghost before = self.violations@;
        if self.decision != FilterDecision::Block {
            self.decision = FilterDecision::Redact;
        }
        self.violations.push(violation);
        assert(self@.violations =~= before.map_values(|v: FilterViolation| v@).push(violation@));
    }
}

/// A block stays a block: later warnings and redactions never weaken it.
pub proof fn law_block_is_final(current: FilterDecision, next: FilterDecision)
    requires
        current == FilterDecision::Block,
    ensures
        softened(current, next) == FilterDecision::Block,
{
}

/// Errors from a filter pass.
#[derive(Debug, Clone, PartialEq, Eq)]
pub enum FilterError {
    /// The engine was set up in a way it cannot run.
    Misconfigured(String),
}

/// Whether any of `needles` occurs in `hay`.
pub open spec fn contains_any(hay: Seq<char>, needles: Seq<Seq<char>>) -> bool {
    exists|i: int| 0 <= i < needles.len() && has_sub(hay, #[trigger] needles[i])
}

/// Text reads like a prompt injection (case-insensitive).
pub open spec fn injection_like(text: Seq<char>) -> bool {
    contains_any(lowercase(text), injection_phrases())
}

/// Text reads like a jailbreak attempt (case-insensitive).
pub open spec fn jailbreak_like(text: Seq<char>) -> bool {
    contains_any(lowercase(text), jailbreak_phrases())
}

fn contains_any_of(hay: &Vec<char>, needles: &Vec<&str>) -> (r: bool)
    ensures
        r == contains_any(hay@, needles@.map_values(|s: &str| s@)),
{
    let ghost nv = needles@.map_values(|s: &str| s@);
    let n = needles.len();
    let mut i: usize = 0;
    while i < n
        invariant
            n == needles@.len(),
            nv == needles@.map_values(|s: &str| s@),
            i <= n,
            forall|k: int| 0 <= k < i ==> !has_sub(hay@, #[trigger] nv[k]),
        decreases n - i,
    {
        let needle = chars_of(needles[i]);
        if contains_chars(hay, &needle) {
            assert(has_sub(hay@, nv[i as int]));
            return true;
        }
        i = i + 1;
    }
    false
}

/// Whether `text` reads like a prompt injection.
pub fn looks_like_prompt_injection(text: &str) -> (r: bool)
    ensures
        r == injection_like(text@),
{
    let lowered = chars_of(to_lowercase(text).as_str());
    let phrases: Vec<&str> = vec![
        "ignore previous instructions",
        "disregard all prior",
        "system: you are now",
    ];
    assert(phrases@.map_values(|s: &str| s@) =~= injection_phrases());
    contains_any_of(&lowered, &phrases)
}

/// Whether `text` reads like a jailbreak attempt.
pub fn looks_like_jailbreak(text: &str) -> (r: bool)
    ensures
        r == jailbreak_like(text@),
{
    let lowered = chars_of(to_lowercase(text).as_str());
    let phrases: Vec<&str> = vec!["do anything now", "jailbreak"];
    assert(phrases@.map_values(|s: &str| s@) =~= jailbreak_phrases());
    contains_any_of(&lowered, &phrases)
}

/// The verdict on input text.
pub open spec fn input_verdict(config: InputFiltersConfig, text: Seq<char>) -> VerdictView {
    if !config.enabled {
        VerdictView { decision: FilterDecision::Allow, violations: Seq::empty() }
    } else {
        let blocked = config.detect_injection && injection_like(text);
        let warned = config.detect_jailbreak && jailbreak_like(text);
        let v1: Seq<ViolationView> = if blocked {
            seq![ViolationView::PromptInjection("Potential prompt injection detected"@)]
        } else {
            Seq::empty()
        };
        let v2: Seq<ViolationView> = if warned {
            v1.push(ViolationView::Jailbreak("Possible jailbreak attempt"@))
        } else {
            v1
        };
        VerdictView {
            decision: if blocked {
                FilterDecision::Block
            } else if warned {
                FilterDecision::Warn
            } else {
                FilterDecision::Allow
            },
            violations: v2,
        }
    }
}

/// The verdict on output text.
pub open spec fn output_verdict(config: OutputFiltersConfig, text: Seq<char>) -> VerdictView {
    if !config.enabled {
        VerdictView { decision: FilterDecision::Allow, violations: Seq::empty() }
    } else {
        let redacted = config.scan_pii && has_sub(text, "@"@);
        let blocked = config.scan_secrets && has_sub(lowercase(text), "api_key"@);
        let v1: Seq<ViolationView> = if redacted {
            seq![ViolationView::Pii("Output appears to contain an email address"@)]
        } else {
            Seq::empty()
        };
        let v2: Seq<ViolationView> = if blocked {
            v1.push(ViolationView::Secret("Output appears to contain a secret"@))
        } else {
            v1
        };
        VerdictView {
            decision: if blocked {
                FilterDecision::Block
            } else if redacted {
                FilterDecision::Redact
            } else {
                FilterDecision::Allow
            },
            violations: v2,
        }
    }
}

/// Filter verdicts: disabled filters allow everything. On input, a prompt
/// injection phrase (`ignore previous instructions`, `disregard all prior`,
/// `system: you are now`, in any case) blocks when injection detection is on,
/// and otherwise a jailbreak phrase (`do anything now`, `jailbreak`) warns
/// when jailbreak detection is on; text with neither is allowed. On output, a
/// secret (`api_key`, in any case) blocks when secret scanning is on, and
/// otherwise an `@` redacts when PII scanning is on.
pub proof fn law_filter_verdicts(
    input: InputFiltersConfig,
    output: OutputFiltersConfig,
    text: Seq<char>,
)
    ensures
        ({
            let low = lowercase(text);
            let injected = finds_any(
                low,
                seq![
                    "ignore previous instructions"@,
                    "disregard all prior"@,
                    "system: you are now"@,
                ],
            );
            let jailbroken = finds_any(low, seq!["do anything now"@, "jailbreak"@]);
            let iv = input_verdict(input, text);
            let ov = output_verdict(output, text);
            &&& !input.enabled ==> iv.decision == FilterDecision::Allow && iv.violations.len() == 0
            &&& (input.enabled && input.detect_injection && injected) ==> iv.decision
                == FilterDecision::Block
            &&& (input.enabled && !(input.detect_injection && injected) && input.detect_jailbreak
                && jailbroken) ==> iv.decision == FilterDecision::Warn
            &&& (input.enabled && !(input.detect_injection && injected) && !(
            input.detect_jailbreak && jailbroken)) ==> iv.decision == FilterDecision::Allow
                && iv.violations.len() == 0
            &&& !output.enabled ==> ov.decision == FilterDecision::Allow && ov.violations.len()
                == 0
            &&& (output.enabled && output.scan_secrets && has_sub(low, "api_key"@)) ==> ov.decision
                == FilterDecision::Block
            &&& (output.enabled && !(output.scan_secrets && has_sub(low, "api_key"@))
                && output.scan_pii && has_sub(text, "@"@)) ==> ov.decision == FilterDecision::Redact
            &&& (output.enabled && !(output.scan_secrets && has_sub(low, "api_key"@)) && !(
            output.scan_pii && has_sub(text, "@"@))) ==> ov.decision == FilterDecision::Allow
                && ov.violations.len() == 0
        }),
{
    let low = lowercase(text);
    let ip = seq!["ignore previous instructions"@, "disregard all prior"@, "system: you are now"@];
    let jp = seq!["do anything now"@, "jailbreak"@];
    assert(injection_phrases() == ip);
    assert(jailbreak_phrases() == jp);
    assert(injection_like(text) == finds_any(low, ip));
    assert(jailbreak_like(text) == finds_any(low, jp));
}

/// Inspects text going to and coming from a model.
#[derive(Debug, Clone)]
pub struct FilterEngine {
    input: InputFiltersConfig,
    output: OutputFiltersConfig,
}

impl FilterEngine {
    /// The input settings in use.
    pub closed spec fn input_config(&self) -> InputFiltersConfig {
        self.input
    }

    /// The output settings in use.
    pub closed spec fn output_config(&self) -> OutputFiltersConfig {
        self.output
    }

    /// An engine with the given settings.
    pub fn new(config: &FiltersConfig) -> (r: Self)
        ensures
            r.input_config() == config.input,
            r.output_config() == config.output,
    {
        FilterEngine {
            input: InputFiltersConfig {
                enabled: config.input.enabled,
                detect_injection: config.input.detect_injection,
                detect_jailbreak: config.input.detect_jailbreak,
            },
            output: OutputFiltersConfig {
                enabled: config.output.enabled,
                scan_pii: config.output.scan_pii,
                scan_secrets: config.output.scan_secrets,
            },
        }
    }

    /// Inspect text sent to the model: prompt injection blocks, jailbreak
    /// phrasing warns.
    pub fn inspect_input(&self, text: &str) -> (r: Result<FilterVerdict, FilterError>)
        ensures
            r matches Ok(v) && v@ == input_verdict(self.input_config(), text@),
    {
        if !self.input.enabled {
            return Ok(FilterVerdict::allow());
        }
        let mut verdict = FilterVerdict::allow();
        if self.input.detect_injection && looks_like_prompt_injection(text) {
            verdict.block(
                FilterViolation::PromptInjection(owned("Potential prompt injection detected")),
            );
        }
        if self.input.detect_jailbreak && looks_like_jailbreak(text) {
            verdict.warn(FilterViolation::Jailbreak(owned("Possible jailbreak attempt")));
        }
        assert(verdict@.violations =~= input_verdict(self.input_config(), text@).violations);
        Ok(verdict)
    }

    /// Inspect text returned by the model: an e-mail address redacts, a
    /// secret blocks.
    pub fn inspect_output(&self, text: &str) -> (r: Result<FilterVerdict, FilterError>)
        ensures
            r matches Ok(v) && v@ == output_verdict(self.output_config(), text@),
    {
        if !self.output.enabled {
            return Ok(FilterVerdict::allow());
        }
        let mut verdict = FilterVerdict::allow();
        let chars = chars_of(text);
        let at = chars_of("@");
        if self.output.scan_pii && contains_chars(&chars, &at) {
            verdict.redact(
                FilterViolation::Pii(owned("Output appears to contain an email address")),
            );
        }
        let lowered = chars_of(to_lowercase(text).as_str());
        let key = chars_of("api_key");
        if self.output.scan_secrets && contains_chars(&lowered, &key) {
            verdict.block(FilterViolation::Secret(owned("Output appears to contain a secret")));
        }
        assert(verdict@.violations =~= output_verdict(self.output_config(), text@).violations);
        Ok(verdict)
    }
}

impl Default for FilterEngine {
    fn default() -> (r: Self)
        ensures
            !r.input_config().enabled && !r.output_config().enabled,
    {
        FilterEngine::new(&FiltersConfig::default())
    }
}

} // verus!
