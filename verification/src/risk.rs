//! Risk scoring for actions.
//!
//! Where the policy engine answers "is this allowed by the rules?", risk
//! scoring answers "how dangerous does this look?". A set of [`RiskAnalyzer`]s
//! inspect an [`ActionRequest`] and emit weighted [`RiskSignal`]s; the
//! [`RiskEngine`] aggregates them into a single [`RiskScore`] on a 0–100 scale.
//!
//! The built-in analyzers are simple, case-insensitive substring heuristics
//! over the request's resource. They are a backstop, not a security boundary.

use vstd::prelude::*;

use crate::action::{actions, ActionRequest, RequestView};
use crate::config::RiskConfig;
use crate::text::{chars_of, contains_chars, has_sub, lowercase, owned, str_eq, to_lowercase};

verus! {

/// A coarse risk band derived from a [`RiskScore`].
#[derive(Debug, Clone, Copy, PartialEq, Eq, Structural)]
pub enum RiskLevel {
    /// Score 0–24.
    Low,
    /// Score 25–49.
    Medium,
    /// Score 50–74.
    High,
    /// Score 75–100.
    Critical,
}

/// The band a score value falls into.
pub open spec fn level_of(value: u8) -> RiskLevel {
    if value <= 24 {
        RiskLevel::Low
    } else if value <= 49 {
        RiskLevel::Medium
    } else if value <= 74 {
        RiskLevel::High
    } else {
        RiskLevel::Critical
    }
}

/// A single risk observation contributed by an analyzer.
#[derive(Debug, Clone, PartialEq, Eq)]
pub struct RiskSignal {
    /// Stable machine code, e.g. `destructive_command` or `secret_in_argument`.
    pub code: String,
    /// How much this signal contributes to the aggregate score (0–100).
    pub weight: u8,
    /// Human-readable explanation.
    pub detail: String,
}

/// The mathematical model of a [`RiskSignal`].
pub struct SignalView {
    pub code: Seq<char>,
    pub weight: u8,
    pub detail: Seq<char>,
}

impl View for RiskSignal {
    type V = SignalView;

    open spec fn view(&self) -> SignalView {
        SignalView { code: self.code@, weight: self.weight, detail: self.detail@ }
    }
}

/// The models of a list of signals.
pub open spec fn signals_view(v: Seq<RiskSignal>) -> Seq<SignalView> {
    v.map_values(|s: RiskSignal| s@)
}

impl RiskSignal {
    /// Create a risk signal.
    pub fn new(code: &str, weight: u8, detail: &str) -> (r: Self)
        ensures
            r@ == (SignalView { code: code@, weight, detail: detail@ }),
    {
        RiskSignal { code: owned(code), weight, detail: owned(detail) }
    }

    /// A copy of this signal.
    pub fn duplicate(&self) -> (r: Self)
        ensures
            r@ == self@,
    {
        RiskSignal { code: self.code.clone(), weight: self.weight, detail: self.detail.clone() }
    }
}

/// The sum of the weights of a list of signals.
pub open spec fn weight_sum(s: Seq<SignalView>) -> nat
    decreases s.len(),
{
    if s.len() == 0 {
        0
    } else {
        weight_sum(s.drop_last()) + s.last().weight as nat
    }
}

/// The aggregate value of a list of signals: their summed weights, saturating
/// at 100.
pub open spec fn saturated_sum(s: Seq<SignalView>) -> u8 {
    if weight_sum(s) >= 100 {
        100u8
    } else {
        weight_sum(s) as u8
    }
}

/// The aggregated risk for an action: a 0–100 value plus the signals behind
/// it.
#[derive(Debug, Clone, PartialEq, Eq)]
pub struct RiskScore {
    /// Aggregate score, saturating at 100.
    pub value: u8,
    /// The signals that contributed to the score.
    pub signals: Vec<RiskSignal>,
}

/// The mathematical model of a [`RiskScore`].
pub struct ScoreView {
    pub value: u8,
    pub signals: Seq<SignalView>,
}

impl View for RiskScore {
    type V = ScoreView;

    open spec fn view(&self) -> ScoreView {
        ScoreView { value: self.value, signals: signals_view(self.signals@) }
    }
}

/// The score built from a list of signals.
pub open spec fn score_of(s: Seq<SignalView>) -> ScoreView {
    ScoreView { value: saturated_sum(s), signals: s }
}

impl RiskScore {
    /// A zero score with no signals.
    pub fn none() -> (r: Self)
        ensures
            r@ == score_of(Seq::empty()),
    {
        let r = RiskScore { value: 0, signals: Vec::new() };
        assert(signals_view(r.signals@) =~= Seq::empty());
        r
    }

    /// Build a score from signals, summing their weights (saturating at 100).
    pub fn from_signals(signals: Vec<RiskSignal>) -> (r: Self)
        ensures
            r@ == score_of(signals_view(signals@)),
    {
        let ghost sv = signals_view(signals@);
        let n = signals.len();
        let mut acc: u8 = 0;
        let mut i: usize = 0;
        while i < n
            invariant
                n == signals@.len(),
                sv == signals_view(signals@),
                i <= n,
                acc as nat == if weight_sum(sv.take(i as int)) >= 100 {
                    100
                } else {
                    weight_sum(sv.take(i as int))
                },
            decreases n - i,
        {
            assert(sv.take(i + 1).drop_last() =~= sv.take(i as int));
            assert(sv.take(i + 1).last() == signals@[i as int]@);
            let w = signals[i].weight;
            if acc as u16 + w as u16 >= 100 {
                acc = 100;
            } else {
                acc = acc + w;
            }
            i = i + 1;
        }
        assert(sv.take(n as int) =~= sv);
        RiskScore { value: acc, signals }
    }

    /// The band this score falls into.
    pub fn level(&self) -> (r: RiskLevel)
        ensures
            r == level_of(self.value),
    {
        if self.value <= 24 {
            RiskLevel::Low
        } else if self.value <= 49 {
            RiskLevel::Medium
        } else if self.value <= 74 {
            RiskLevel::High
        } else {
            RiskLevel::Critical
        }
    }

    /// A copy of this score.
    pub fn duplicate(&self) -> (r: Self)
        ensures
            r@ == self@,
    {
        let mut out: Vec<RiskSignal> = Vec::new();
        let n = self.signals.len();
        let mut i: usize = 0;
        while i < n
            invariant
                n == self.signals@.len(),
                i <= n,
                out@.len() == i,
                forall|k: int| 0 <= k < i ==> out@[k]@ == self.signals@[k]@,
            decreases n - i,
        {
            out.push(self.signals[i].duplicate());
            i = i + 1;
        }
        assert(signals_view(out@) =~= signals_view(self.signals@));
        RiskScore { value: self.value, signals: out }
    }
}

impl Default for RiskScore {
    fn default() -> (r: Self)
        ensures
            r@ == score_of(Seq::empty()),
    {
        Self::none()
    }
}

// ---------------------------------------------------------------------------
// Analyzers
// ---------------------------------------------------------------------------

/// Inspects an action and reports any risk signals it finds.
pub trait RiskAnalyzer {
    /// The signals this analyzer reports for a request.
    spec fn signals_for(&self, request: RequestView) -> Seq<SignalView>;

    /// The analyzer's stable name (for configuration and diagnostics).
    fn name(&self) -> &str;

    /// Emit the risk signals for `request`.
    fn analyze(&self, request: &ActionRequest) -> (r: Vec<RiskSignal>)
        ensures
            signals_view(r@) == self.signals_for(request@),
    ;
}

/// One signal per table entry whose needle occurs in `hay`, in table order.
pub open spec fn pattern_hits(
    hay: Seq<char>,
    table: Seq<(Seq<char>, Seq<char>)>,
    code: Seq<char>,
    weight: u8,
) -> Seq<SignalView>
    decreases table.len(),
{
    if table.len() == 0 {
        Seq::empty()
    } else {
        let rest = pattern_hits(hay, table.drop_last(), code, weight);
        if has_sub(hay, table.last().0) {
            rest.push(SignalView { code, weight, detail: table.last().1 })
        } else {
            rest
        }
    }
}

/// Whether any of `needles` occurs in `hay`.
pub open spec fn any_sub(hay: Seq<char>, needles: Seq<Seq<char>>) -> bool {
    exists|i: int| 0 <= i < needles.len() && has_sub(hay, #[trigger] needles[i])
}

/// The destructive patterns and the detail each reports.
pub open spec fn destructive_patterns() -> Seq<(Seq<char>, Seq<char>)> {
    seq![
        ("rm -rf /"@, "recursive delete from root"@),
        ("rm -rf /*"@, "recursive delete of root contents"@),
        ("rm -rf ~"@, "recursive delete of home"@),
        ("mkfs"@, "filesystem format"@),
        ("dd if="@, "raw disk write via dd"@),
        ("of=/dev/sd"@, "raw write to block device"@),
        ("of=/dev/nvme"@, "raw write to nvme device"@),
        (":(){"@, "fork bomb"@),
    ]
}

/// Markers of credential-like text.
pub open spec fn secret_markers() -> Seq<Seq<char>> {
    seq!["api_key"@, "api-key"@, "secret"@, "password"@, "bearer "@, "-----begin"@]
}

/// Prompt-injection phrases.
pub open spec fn injection_phrases() -> Seq<Seq<char>> {
    seq!["ignore previous instructions"@, "disregard all prior"@, "system: you are now"@]
}

/// Jailbreak phrases.
pub open spec fn jailbreak_phrases() -> Seq<Seq<char>> {
    seq!["do anything now"@, "jailbreak"@]
}

/// The signals of the destructive-command analyzer: for `exec` and
/// `net.remote` actions, one weight-80 signal per destructive pattern found in
/// the lowercased resource.
pub open spec fn destructive_signals(request: RequestView) -> Seq<SignalView> {
    if request.action != actions::EXEC@ && request.action != actions::NET_REMOTE@ {
        Seq::empty()
    } else {
        pattern_hits(
            lowercase(request.resource),
            destructive_patterns(),
            "destructive_command"@,
            80u8,
        )
    }
}

/// A single signal when any of `needles` occurs in the lowercased resource.
pub open spec fn marker_signal(
    request: RequestView,
    needles: Seq<Seq<char>>,
    code: Seq<char>,
    weight: u8,
    detail: Seq<char>,
) -> Seq<SignalView> {
    if any_sub(lowercase(request.resource), needles) {
        seq![SignalView { code, weight, detail }]
    } else {
        Seq::empty()
    }
}

/// Scans `hay` for each needle of `table`, reporting a signal per hit.
fn scan_table(hay: &Vec<char>, table: &Vec<(&str, &str)>, code: &str, weight: u8) -> (r: Vec<
    RiskSignal,
>)
    ensures
        signals_view(r@) == pattern_hits(
            hay@,
            table@.map_values(|e: (&str, &str)| (e.0@, e.1@)),
            code@,
            weight,
        ),
{
    let ghost tv = table@.map_values(|e: (&str, &str)| (e.0@, e.1@));
    let mut out: Vec<RiskSignal> = Vec::new();
    let n = table.len();
    let mut i: usize = 0;
    while i < n
        invariant
            n == table@.len(),
            tv == table@.map_values(|e: (&str, &str)| (e.0@, e.1@)),
            i <= n,
            signals_view(out@) == pattern_hits(hay@, tv.take(i as int), code@, weight),
        decreases n - i,
    {
        assert(tv.take(i + 1).drop_last() =~= tv.take(i as int));
        assert(tv.take(i + 1).last() == (table@[i as int].0@, table@[i as int].1@));
        let needle = chars_of(table[i].0);
        if contains_chars(hay, &needle) {
            let ghost before = out@;
            out.push(RiskSignal::new(code, weight, table[i].1));
            assert(signals_view(out@) =~= signals_view(before).push(out@.last()@));
        }
        i = i + 1;
    }
    assert(tv.take(n as int) =~= tv);
    out
}

/// Whether any needle of `needles` occurs in `hay`.
fn scan_any(hay: &Vec<char>, needles: &Vec<&str>) -> (r: bool)
    ensures
        r == any_sub(hay@, needles@.map_values(|s: &str| s@)),
{
    let ghost nv = needles@.map_values(|s: &str| s@);
    let n = needles.len();
    let mut i: usize = 0;
    while i < n
        invariant
            n == needles@.len(),
            nv == needles@.map_values(|s: &str| s@),
            i <= n,
            forall|k: int| 0 <= k < i ==> !has_sub(hay@, #[trigger] nv[k]),
        decreases n - i,
    {
        let needle = chars_of(needles[i]);
        if contains_chars(hay, &needle) {
            assert(has_sub(hay@, nv[i as int]));
            return true;
        }
        i = i + 1;
    }
    false
}

/// Flags shell commands that destroy data or hardware at scale.
pub struct DestructiveCommandAnalyzer;

impl RiskAnalyzer for DestructiveCommandAnalyzer {
    open spec fn signals_for(&self, request: RequestView) -> Seq<SignalView> {
        destructive_signals(request)
    }

    fn name(&self) -> (r: &str)
        ensures
            r@ == "destructive_command"@,
    {
        "destructive_command"
    }

    fn analyze(&self, request: &ActionRequest) -> (r: Vec<RiskSignal>) {
        if !str_eq(request.action.as_str(), actions::EXEC) && !str_eq(
            request.action.as_str(),
            actions::NET_REMOTE,
        ) {
            let r: Vec<RiskSignal> = Vec::new();
            assert(signals_view(r@) =~= Seq::empty());
            return r;
        }
        let cmd = chars_of(to_lowercase(request.resource.as_str()).as_str());
        let table: Vec<(&str, &str)> = vec![
            ("rm -rf /", "recursive delete from root"),
            ("rm -rf /*", "recursive delete of root contents"),
            ("rm -rf ~", "recursive delete of home"),
            ("mkfs", "filesystem format"),
            ("dd if=", "raw disk write via dd"),
            ("of=/dev/sd", "raw write to block device"),
            ("of=/dev/nvme", "raw write to nvme device"),
            (":(){", "fork bomb"),
        ];
        assert(table@.map_values(|e: (&str, &str)| (e.0@, e.1@)) =~= destructive_patterns());
        scan_table(&cmd, &table, "destructive_command", 80)
    }
}

/// Reports a single signal when any needle occurs in the lowercased resource.
fn marker_analysis(
    request: &ActionRequest,
    needles: &Vec<&str>,
    code: &str,
    weight: u8,
    detail: &str,
) -> (r: Vec<RiskSignal>)
    ensures
        signals_view(r@) == marker_signal(
            request@,
            needles@.map_values(|s: &str| s@),
            code@,
            weight,
            detail@,
        ),
{
    let hay = chars_of(to_lowercase(request.resource.as_str()).as_str());
    let mut r: Vec<RiskSignal> = Vec::new();
    if scan_any(&hay, needles) {
        r.push(RiskSignal::new(code, weight, detail));
        assert(signals_view(r@) =~= seq![SignalView { code: code@, weight, detail: detail@ }]);
    } else {
        assert(signals_view(r@) =~= Seq::empty());
    }
    r
}

/// Flags arguments that look like they embed a credential.
pub struct SecretAnalyzer;

impl RiskAnalyzer for SecretAnalyzer {
    open spec fn signals_for(&self, request: RequestView) -> Seq<SignalView> {
        marker_signal(
            request,
            secret_markers(),
            "secret_in_argument"@,
            40u8,
            "argument contains credential-like text"@,
        )
    }

    fn name(&self) -> (r: &str)
        ensures
            r@ == "secret_in_argument"@,
    {
        "secret_in_argument"
    }

    fn analyze(&self, request: &ActionRequest) -> (r: Vec<RiskSignal>) {
        let markers: Vec<&str> = vec![
            "api_key",
            "api-key",
            "secret",
            "password",
            "bearer ",
            "-----begin",
        ];
        assert(markers@.map_values(|s: &str| s@) =~= secret_markers());
        marker_analysis(
            request,
            &markers,
            "secret_in_argument",
            40,
            "argument contains credential-like text",
        )
    }
}

/// Flags prompt-injection phrasing in the resource.
pub struct InjectionAnalyzer;

impl RiskAnalyzer for InjectionAnalyzer {
    open spec fn signals_for(&self, request: RequestView) -> Seq<SignalView> {
        marker_signal(
            request,
            injection_phrases(),
            "prompt_injection"@,
            50u8,
            "resource contains prompt-injection phrasing"@,
        )
    }

    fn name(&self) -> (r: &str)
        ensures
            r@ == "prompt_injection"@,
    {
        "prompt_injection"
    }

    fn analyze(&self, request: &ActionRequest) -> (r: Vec<RiskSignal>) {
        let phrases: Vec<&str> = vec![
            "ignore previous instructions",
            "disregard all prior",
            "system: you are now",
        ];
        assert(phrases@.map_values(|s: &str| s@) =~= injection_phrases());
        marker_analysis(
            request,
            &phrases,
            "prompt_injection",
            50,
            "resource contains prompt-injection phrasing",
        )
    }
}

/// Flags jailbreak phrasing in the resource.
pub struct JailbreakAnalyzer;

impl RiskAnalyzer for JailbreakAnalyzer {
    open spec fn signals_for(&self, request: RequestView) -> Seq<SignalView> {
        marker_signal(
            request,
            jailbreak_phrases(),
            "jailbreak"@,
            40u8,
            "resource contains jailbreak phrasing"@,
        )
    }

    fn name(&self) -> (r: &str)
        ensures
            r@ == "jailbreak"@,
    {
        "jailbreak"
    }

    fn analyze(&self, request: &ActionRequest) -> (r: Vec<RiskSignal>) {
        let phrases: Vec<&str> = vec!["do anything now", "jailbreak"];
        assert(phrases@.map_values(|s: &str| s@) =~= jailbreak_phrases());
        marker_analysis(request, &phrases, "jailbreak", 40, "resource contains jailbreak phrasing")
    }
}

// ---------------------------------------------------------------------------
// Engine
// ---------------------------------------------------------------------------

/// An analyzer registered with a [`RiskEngine`]: one of the built-ins, or any
/// other [`RiskAnalyzer`].
pub enum AnalyzerSlot<A = Box<dyn RiskAnalyzer>> {
    Destructive,
    Secret,
    Injection,
    Jailbreak,
    Custom(A),
}

/// The signals a registered analyzer reports for a request.
pub open spec fn slot_signals(slot: AnalyzerSlot, request: RequestView) -> Seq<SignalView> {
    match slot {
        AnalyzerSlot::Destructive => DestructiveCommandAnalyzer.signals_for(request),
        AnalyzerSlot::Secret => SecretAnalyzer.signals_for(request),
        AnalyzerSlot::Injection => InjectionAnalyzer.signals_for(request),
        AnalyzerSlot::Jailbreak => JailbreakAnalyzer.signals_for(request),
        AnalyzerSlot::Custom(a) => a.signals_for(request),
    }
}

/// The signals of a list of analyzers, in analyzer order.
pub open spec fn all_signals(analyzers: Seq<AnalyzerSlot>, request: RequestView) -> Seq<SignalView>
    decreases analyzers.len(),
{
    if analyzers.len() == 0 {
        Seq::empty()
    } else {
        all_signals(analyzers.drop_last(), request) + slot_signals(analyzers.last(), request)
    }
}

/// The destructive-command signals when the config enables them.
pub open spec fn destructive_part(config: RiskConfig, request: RequestView) -> Seq<SignalView> {
    if config.detect_destructive {
        DestructiveCommandAnalyzer.signals_for(request)
    } else {
        Seq::empty()
    }
}

/// The secret signals when the config enables them.
pub open spec fn secret_part(config: RiskConfig, request: RequestView) -> Seq<SignalView> {
    if config.detect_secrets {
        SecretAnalyzer.signals_for(request)
    } else {
        Seq::empty()
    }
}

/// The injection and jailbreak signals when the config enables them.
pub open spec fn injection_part(config: RiskConfig, request: RequestView) -> Seq<SignalView> {
    if config.detect_injection {
        InjectionAnalyzer.signals_for(request) + JailbreakAnalyzer.signals_for(request)
    } else {
        Seq::empty()
    }
}

/// The signals of the built-in analyzers a risk configuration selects, in the
/// order destructive, secret, injection, jailbreak; none when risk analysis is
/// disabled.
pub open spec fn configured_signals(config: RiskConfig, request: RequestView) -> Seq<SignalView> {
    if !config.enabled {
        Seq::empty()
    } else {
        destructive_part(config, request) + secret_part(config, request) + injection_part(
            config,
            request,
        )
    }
}

/// A sequence with one element pushed has one more element, that element
/// last, and the sequence before it.
proof fn lemma_push_parts<A>(s: Seq<A>, a: A)
    ensures
        s.push(a).len() == s.len() + 1,
        s.push(a).drop_last() == s,
        s.push(a).last() == a,
{
    assert(s.push(a).drop_last() =~= s);
}

/// The weights of two lists of signals, one after the other, add up.
proof fn lemma_weight_sum_append(s: Seq<SignalView>, t: Seq<SignalView>)
    ensures
        weight_sum(s + t) == weight_sum(s) + weight_sum(t),
    decreases t.len(),
{
    if t.len() > 0 {
        lemma_weight_sum_append(s, t.drop_last());
        assert((s + t).drop_last() =~= s + t.drop_last());
    } else {
        assert(s + t =~= s);
    }
}

/// Registering an analyzer never lowers a score: an engine whose signals are
/// another's followed by an added analyzer's (as `with_analyzer` makes it)
/// reports those signals, and a value at least the other's.
pub proof fn law_added_analyzer_never_lowers_score(
    before: RiskEngine,
    after: RiskEngine,
    analyzer: Box<dyn RiskAnalyzer>,
    request: RequestView,
)
    requires
        forall|q: RequestView| #[trigger]
            all_signals(after.analyzers(), q) == all_signals(before.analyzers(), q)
                + analyzer.signals_for(q),
    ensures
        after.score_for(request).signals == before.score_for(request).signals
            + analyzer.signals_for(request),
        after.score_for(request).value >= before.score_for(request).value,
{
    let s = all_signals(before.analyzers(), request);
    let t = analyzer.signals_for(request);
    assert(all_signals(after.analyzers(), request) == s + t);
    lemma_weight_sum_append(s, t);
}

/// The signals of a list of analyzers, one after the other, in list order.
pub open spec fn listed_signals(list: Seq<Box<dyn RiskAnalyzer>>, request: RequestView) -> Seq<
    SignalView,
>
    decreases list.len(),
{
    if list.len() == 0 {
        Seq::empty()
    } else {
        listed_signals(list.drop_last(), request) + list.last().signals_for(request)
    }
}

proof fn lemma_chain_prefix(
    engines: Seq<RiskEngine>,
    list: Seq<Box<dyn RiskAnalyzer>>,
    request: RequestView,
    n: int,
)
    requires
        engines.len() == list.len() + 1,
        engines[0].analyzers().len() == 0,
        forall|k: int, q: RequestView|
            1 <= k < engines.len() ==> #[trigger] all_signals(engines[k].analyzers(), q)
                == all_signals(engines[k - 1].analyzers(), q) + list[k - 1].signals_for(q),
        0 <= n <= list.len(),
    ensures
        all_signals(engines[n].analyzers(), request) == listed_signals(list.take(n), request),
    decreases n,
{
    if n == 0 {
        assert(all_signals(engines[0].analyzers(), request) =~= Seq::<SignalView>::empty());
        assert(list.take(0) =~= Seq::<Box<dyn RiskAnalyzer>>::empty());
    } else {
        lemma_chain_prefix(engines, list, request, n - 1);
        assert(list.take(n).drop_last() =~= list.take(n - 1));
        assert(list.take(n).last() == list[n - 1]);
        assert(all_signals(engines[n].analyzers(), request) == all_signals(
            engines[n - 1].analyzers(),
            request,
        ) + list[n - 1].signals_for(request));
    }
}

/// Registering analyzers one at a time, starting from an engine with none
/// (each step as `with_analyzer` makes it), gives an engine that scores a
/// request as the saturated sum of every registered analyzer's signals, in
/// registration order.
pub proof fn law_score_sums_analyzers_in_order(
    engines: Seq<RiskEngine>,
    list: Seq<Box<dyn RiskAnalyzer>>,
    request: RequestView,
)
    requires
        engines.len() == list.len() + 1,
        engines[0].analyzers().len() == 0,
        forall|k: int, q: RequestView|
            1 <= k < engines.len() ==> #[trigger] all_signals(engines[k].analyzers(), q)
                == all_signals(engines[k - 1].analyzers(), q) + list[k - 1].signals_for(q),
    ensures
        engines.last().score_for(request) == score_of(listed_signals(list, request)),
{
    lemma_chain_prefix(engines, list, request, list.len() as int);
    assert(list.take(list.len() as int) =~= list);
}

/// `pattern_hits` reports a signal for every entry whose needle is found, and
/// only such signals.
/// `signal` is the signal of an entry of `table` whose needle occurs in `hay`.
pub open spec fn hit_explained(
    hay: Seq<char>,
    table: Seq<(Seq<char>, Seq<char>)>,
    code: Seq<char>,
    weight: u8,
    signal: SignalView,
) -> bool {
    exists|k: int|
        0 <= k < table.len() && has_sub(hay, table[k].0) && signal == (SignalView {
            code,
            weight,
            detail: table[k].1,
        })
}

proof fn lemma_pattern_hits(
    hay: Seq<char>,
    table: Seq<(Seq<char>, Seq<char>)>,
    code: Seq<char>,
    weight: u8,
)
    ensures
        forall|k: int|
            0 <= k < table.len() && has_sub(hay, #[trigger] table[k].0) ==> pattern_hits(
                hay,
                table,
                code,
                weight,
            ).contains(SignalView { code, weight, detail: table[k].1 }),
        forall|i: int|
            0 <= i < pattern_hits(hay, table, code, weight).len() ==> #[trigger] hit_explained(
                hay,
                table,
                code,
                weight,
                pattern_hits(hay, table, code, weight)[i],
            ),
    decreases table.len(),
{
    if table.len() > 0 {
        let t = table.drop_last();
        lemma_pattern_hits(hay, t, code, weight);
        let rest = pattern_hits(hay, t, code, weight);
        let all = pattern_hits(hay, table, code, weight);
        assert forall|k: int|
            0 <= k < table.len() && has_sub(hay, #[trigger] table[k].0) implies all.contains(
            SignalView { code, weight, detail: table[k].1 },
        ) by {
            if k < t.len() {
                assert(t[k] == table[k]);
                let i = choose|i: int|
                    0 <= i < rest.len() && rest[i] == (SignalView { code, weight, detail: t[k].1 });
                assert(all[i] == rest[i]);
            } else {
                assert(all[all.len() - 1] == (SignalView { code, weight, detail: table[k].1 }));
            }
        }
        assert forall|i: int| 0 <= i < all.len() implies #[trigger] hit_explained(
            hay,
            table,
            code,
            weight,
            all[i],
        ) by {
            if i < rest.len() {
                assert(all[i] == rest[i]);
                assert(hit_explained(hay, t, code, weight, rest[i]));
                let k = choose|k: int|
                    0 <= k < t.len() && has_sub(hay, t[k].0) && rest[i] == (SignalView {
                        code,
                        weight,
                        detail: t[k].1,
                    });
                assert(t[k] == table[k]);
            } else {
                let k = table.len() - 1;
                assert(has_sub(hay, table.last().0));
                assert(all == rest.push(SignalView { code, weight, detail: table.last().1 }));
                assert(all[i] == (SignalView { code, weight, detail: table[k].1 }));
            }
        }
        assert(all == pattern_hits(hay, table, code, weight));
    } else {
        assert(pattern_hits(hay, table, code, weight).len() == 0);
    }
}

/// The destructive-command analyzer: for `exec` and `net.remote` actions it
/// reports a weight-80 `destructive_command` signal, with the pattern's
/// detail, for each of `rm -rf /`, `rm -rf /*`, `rm -rf ~`, `mkfs`, `dd if=`,
/// `of=/dev/sd`, `of=/dev/nvme` and `:(){` found in the lowercased resource,
/// and no other signal; for any other action it reports nothing.
pub proof fn law_destructive_signals(request: RequestView)
    ensures
        ({
            let table = seq![
                ("rm -rf /"@, "recursive delete from root"@),
                ("rm -rf /*"@, "recursive delete of root contents"@),
                ("rm -rf ~"@, "recursive delete of home"@),
                ("mkfs"@, "filesystem format"@),
                ("dd if="@, "raw disk write via dd"@),
                ("of=/dev/sd"@, "raw write to block device"@),
                ("of=/dev/nvme"@, "raw write to nvme device"@),
                (":(){"@, "fork bomb"@),
            ];
            let low = lowercase(request.resource);
            let sig = DestructiveCommandAnalyzer.signals_for(request);
            let command = request.action == "exec"@ || request.action == "net.remote"@;
            &&& !command ==> sig.len() == 0
            &&& command ==> forall|k: int|
                0 <= k < table.len() && has_sub(low, #[trigger] table[k].0) ==> sig.contains(
                    SignalView { code: "destructive_command"@, weight: 80, detail: table[k].1 },
                )
            &&& forall|i: int|
                0 <= i < sig.len() ==> #[trigger] hit_explained(
                    low,
                    table,
                    "destructive_command"@,
                    80u8,
                    sig[i],
                )
        }),
{
    let table = seq![
        ("rm -rf /"@, "recursive delete from root"@),
        ("rm -rf /*"@, "recursive delete of root contents"@),
        ("rm -rf ~"@, "recursive delete of home"@),
        ("mkfs"@, "filesystem format"@),
        ("dd if="@, "raw disk write via dd"@),
        ("of=/dev/sd"@, "raw write to block device"@),
        ("of=/dev/nvme"@, "raw write to nvme device"@),
        (":(){"@, "fork bomb"@),
    ];
    assert(destructive_patterns() == table);
    let low = lowercase(request.resource);
    lemma_pattern_hits(low, table, "destructive_command"@, 80u8);
    if request.action != actions::EXEC@ && request.action != actions::NET_REMOTE@ {
        assert(DestructiveCommandAnalyzer.signals_for(request).len() == 0);
    } else {
        assert(DestructiveCommandAnalyzer.signals_for(request) == pattern_hits(
            low,
            table,
            "destructive_command"@,
            80u8,
        ));
    }
}

/// Some needle of `needles` occurs in `hay`.
pub open spec fn finds_any(hay: Seq<char>, needles: Seq<Seq<char>>) -> bool {
    exists|k: int| 0 <= k < needles.len() && has_sub(hay, #[trigger] needles[k])
}

/// The marker analyzers report one fixed signal when any of their markers
/// occurs in the lowercased resource, and nothing otherwise: the secret
/// analyzer (weight 40) for `api_key`, `api-key`, `secret`, `password`,
/// `bearer ` and `-----begin`; the injection analyzer (weight 50) for
/// `ignore previous instructions`, `disregard all prior` and
/// `system: you are now`; the jailbreak analyzer (weight 40) for
/// `do anything now` and `jailbreak`.
pub proof fn law_marker_signals(request: RequestView)
    ensures
        ({
            let low = lowercase(request.resource);
            let secrets = seq![
                "api_key"@,
                "api-key"@,
                "secret"@,
                "password"@,
                "bearer "@,
                "-----begin"@,
            ];
            let injections = seq![
                "ignore previous instructions"@,
                "disregard all prior"@,
                "system: you are now"@,
            ];
            let jailbreaks = seq!["do anything now"@, "jailbreak"@];
            &&& SecretAnalyzer.signals_for(request) == if finds_any(low, secrets) {
                seq![
                    SignalView {
                        code: "secret_in_argument"@,
                        weight: 40,
                        detail: "argument contains credential-like text"@,
                    },
                ]
            } else {
                Seq::empty()
            }
            &&& InjectionAnalyzer.signals_for(request) == if finds_any(low, injections) {
                seq![
                    SignalView {
                        code: "prompt_injection"@,
                        weight: 50,
                        detail: "resource contains prompt-injection phrasing"@,
                    },
                ]
            } else {
                Seq::empty()
            }
            &&& JailbreakAnalyzer.signals_for(request) == if finds_any(low, jailbreaks) {
                seq![
                    SignalView {
                        code: "jailbreak"@,
                        weight: 40,
                        detail: "resource contains jailbreak phrasing"@,
                    },
                ]
            } else {
                Seq::empty()
            }
        }),
{
    let low = lowercase(request.resource);
    assert(secret_markers() == seq![
        "api_key"@,
        "api-key"@,
        "secret"@,
        "password"@,
        "bearer "@,
        "-----begin"@,
    ]);
    assert(injection_phrases() == seq![
        "ignore previous instructions"@,
        "disregard all prior"@,
        "system: you are now"@,
    ]);
    assert(jailbreak_phrases() == seq!["do anything now"@, "jailbreak"@]);
    assert(any_sub(low, secret_markers()) == finds_any(low, secret_markers()));
    assert(any_sub(low, injection_phrases()) == finds_any(low, injection_phrases()));
    assert(any_sub(low, jailbreak_phrases()) == finds_any(low, jailbreak_phrases()));
}

/// Risk bands: 0 to 24 is low, 25 to 49 medium, 50 to 74 high, and 75 up
/// critical.
pub proof fn law_level_bands(value: u8)
    ensures
        (level_of(value) == RiskLevel::Low) == (value < 25),
        (level_of(value) == RiskLevel::Medium) == (25 <= value && value < 50),
        (level_of(value) == RiskLevel::High) == (50 <= value && value < 75),
        (level_of(value) == RiskLevel::Critical) == (75 <= value),
{
}

/// The score of no signals is zero; adding a signal adds its weight, and the
/// value never exceeds 100: it is the sum of the weights while that is under
/// 100, and 100 once the sum reaches it. The signals are kept as given.
pub proof fn law_score_saturates(s: Seq<SignalView>, x: SignalView)
    ensures
        score_of(Seq::empty()).value == 0,
        weight_sum(s.push(x)) == weight_sum(s) + x.weight,
        score_of(s).value <= 100,
        weight_sum(s) < 100 ==> score_of(s).value == weight_sum(s),
        weight_sum(s) >= 100 ==> score_of(s).value == 100,
        score_of(s).signals == s,
{
    assert(s.push(x).drop_last() =~= s);
}

/// A score is at least the weight of each of its signals, up to the cap of
/// 100.
pub proof fn law_score_covers_each_signal(s: Seq<SignalView>, i: int)
    requires
        0 <= i < s.len(),
    ensures
        score_of(s).value >= if s[i].weight >= 100 {
            100
        } else {
            s[i].weight
        },
    decreases s.len(),
{
    if i < s.len() - 1 {
        law_score_covers_each_signal(s.drop_last(), i);
        assert(s.drop_last()[i] == s[i]);
    }
}

/// Runs a set of analyzers and aggregates their signals into a [`RiskScore`].
pub struct RiskEngine {
    analyzers: Vec<AnalyzerSlot>,
}

impl RiskEngine {
    /// The analyzers, in registration order.
    pub closed spec fn analyzers(&self) -> Seq<AnalyzerSlot> {
        self.analyzers@
    }

    /// The score this engine computes for a request.
    pub open spec fn score_for(&self, request: RequestView) -> ScoreView {
        score_of(all_signals(self.analyzers(), request))
    }

    /// A risk engine with no analyzers; every action scores zero.
    pub fn empty() -> (r: Self)
        ensures
            r.analyzers() == Seq::<AnalyzerSlot>::empty(),
    {
        RiskEngine { analyzers: Vec::new() }
    }

    fn with_slot(self, slot: AnalyzerSlot) -> (r: Self)
        ensures
            r.analyzers() == self.analyzers().push(slot),
    {
        let mut analyzers = self.analyzers;
        analyzers.push(slot);
        RiskEngine { analyzers }
    }

    /// Build a risk engine from configuration, enabling the built-in analyzers
    /// the config selects.
    pub fn from_config(config: &RiskConfig) -> (r: Self)
        ensures
            forall|request: RequestView| #[trigger]
                all_signals(r.analyzers(), request) == configured_signals(*config, request),
    {
        let mut r = Self::empty();
        if !config.enabled {
            assert forall|request: RequestView| #[trigger]
                all_signals(r.analyzers(), request) == configured_signals(*config, request) by {
                assert(all_signals(r.analyzers(), request) =~= Seq::empty());
            }
            return r;
        }
        let ghost a0 = r.analyzers();
        if config.detect_destructive {
            r = r.with_slot(AnalyzerSlot::Destructive);
        }
        let ghost a1 = r.analyzers();
        if config.detect_secrets {
            r = r.with_slot(AnalyzerSlot::Secret);
        }
        let ghost a2 = r.analyzers();
        if config.detect_injection {
            r = r.with_slot(AnalyzerSlot::Injection);
            r = r.with_slot(AnalyzerSlot::Jailbreak);
            assert(r.analyzers() == a2.push(AnalyzerSlot::Injection).push(AnalyzerSlot::Jailbreak));
        }
        assert forall|request: RequestView| #[trigger]
            all_signals(r.analyzers(), request) == configured_signals(*config, request) by {
            assert(all_signals(a0, request) =~= Seq::empty());
            if config.detect_destructive {
                assert(a1.drop_last() =~= a0);
            }
            assert(all_signals(a1, request) =~= destructive_part(*config, request));
            if config.detect_secrets {
                assert(a2.drop_last() =~= a1);
            }
            assert(all_signals(a2, request) =~= destructive_part(*config, request) + secret_part(
                *config,
                request,
            ));
            if config.detect_injection {
                let s3 = a2.push(AnalyzerSlot::Injection);
                assert(s3.drop_last() =~= a2);
                assert(r.analyzers().drop_last() =~= s3);
                assert(all_signals(s3, request) == all_signals(a2, request)
                    + InjectionAnalyzer.signals_for(request));
            }
        }
        r
    }

    /// Register an additional analyzer, run after those already registered.
    pub fn with_analyzer(self, analyzer: Box<dyn RiskAnalyzer>) -> (r: Self)
        ensures
            r.analyzers().len() == self.analyzers().len() + 1,
            r.analyzers().drop_last() == self.analyzers(),
            r.analyzers().last() == AnalyzerSlot::Custom(analyzer),
            forall|request: RequestView| #[trigger]
                all_signals(r.analyzers(), request) == all_signals(self.analyzers(), request)
                    + analyzer.signals_for(request),
    {
        let ghost before = self.analyzers@;
        let slot = AnalyzerSlot::Custom(analyzer);
        let ghost g = slot;
        let mut analyzers = self.analyzers;
        analyzers.push(slot);
        proof {
            lemma_push_parts(before, g);
            assert forall|request: RequestView| #[trigger]
                all_signals(analyzers@, request) == all_signals(before, request)
                    + analyzer.signals_for(request) by {
                assert(g matches AnalyzerSlot::Custom(b) && b == analyzer);
                assert(slot_signals(g, request) == analyzer.signals_for(request));
            }
        }
        RiskEngine { analyzers }
    }

    /// Score a request by running every analyzer and summing their signals.
    pub fn score(&self, request: &ActionRequest) -> (r: RiskScore)
        ensures
            r@ == self.score_for(request@),
    {
        let ghost av = self.analyzers@;
        let mut signals: Vec<RiskSignal> = Vec::new();
        let n = self.analyzers.len();
        let mut i: usize = 0;
        while i < n
            invariant
                n == self.analyzers@.len(),
                av == self.analyzers@,
                i <= n,
                signals_view(signals@) == all_signals(av.take(i as int), request@),
            decreases n - i,
        {
            assert(av.take(i + 1).drop_last() =~= av.take(i as int));
            let found = match &self.analyzers[i] {
                AnalyzerSlot::Destructive => DestructiveCommandAnalyzer.analyze(request),
                AnalyzerSlot::Secret => SecretAnalyzer.analyze(request),
                AnalyzerSlot::Injection => InjectionAnalyzer.analyze(request),
                AnalyzerSlot::Jailbreak => JailbreakAnalyzer.analyze(request),
                AnalyzerSlot::Custom(a) => a.analyze(request),
            };
            assert(signals_view(found@) == slot_signals(av[i as int], request@));
            let ghost before = signals@;
            let mut j: usize = 0;
            let m = found.len();
            while j < m
                invariant
                    m == found@.len(),
                    j <= m,
                    signals_view(signals@) == signals_view(before) + signals_view(found@).take(
                        j as int,
                    ),
                decreases m - j,
            {
                let ghost prev = signals@;
                signals.push(found[j].duplicate());
                assert(signals_view(signals@) =~= signals_view(prev).push(found@[j as int]@));
                assert(signals_view(found@).take(j + 1) =~= signals_view(found@).take(
                    j as int,
                ).push(found@[j as int]@));
                assert(signals_view(signals@) =~= signals_view(before) + signals_view(
                    found@,
                ).take(j + 1));
                j = j + 1;
            }
            assert(signals_view(found@).take(m as int) =~= signals_view(found@));
            i = i + 1;
        }
        assert(av.take(n as int) =~= av);
        RiskScore::from_signals(signals)
    }
}

impl Default for RiskEngine {
    fn default() -> (r: Self)
        ensures
            r.analyzers() == Seq::<AnalyzerSlot>::empty(),
    {
        Self::empty()
    }
}

} // verus!
