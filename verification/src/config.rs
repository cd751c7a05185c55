//! Typed configuration.
//!
//! A [`Config`] groups the settings of each subsystem. Every field has a
//! default, so a minimal configuration only needs to override what it cares
//! about. The default posture is deny-by-default with risk analysis enabled.
//! Paths are kept as strings.

use vstd::prelude::*;

verus! {

/// Top-level configuration.
#[derive(Debug, Clone)]
pub struct Config {
    /// Policy loading and default effect.
    pub policy: PolicyConfig,
    /// Risk analyzer selection and approval threshold.
    pub risk: RiskConfig,
    /// Audit log backend.
    pub audit: AuditConfig,
    /// Approval defaults.
    pub approval: ApprovalConfig,
    /// Tracing/logging.
    pub telemetry: TelemetryConfig,
}

impl Default for Config {
    fn default() -> (r: Self)
        ensures
            r.policy.policy_dir@ == "policies"@,
            r.policy.default_effect == DefaultEffect::Deny,
            r.risk.enabled && r.risk.detect_destructive && r.risk.detect_secrets
                && r.risk.detect_injection,
            r.risk.approval_threshold is None,
            r.audit.backend == AuditBackend::Sqlite,
            r.audit.path@ == "veridion-audit.db"@,
            r.approval.default == ApprovalMode::Deny,
            r.telemetry.enable_tracing,
            r.telemetry.log_level@ == "info"@,
    {
        Config {
            policy: PolicyConfig::default(),
            risk: RiskConfig::default(),
            audit: AuditConfig::default(),
            approval: ApprovalConfig::default(),
            telemetry: TelemetryConfig::default(),
        }
    }
}

impl Config {
    /// A permissive configuration for local development: default-allow, no
    /// audit persistence, risk analysis on. Not for production use.
    pub fn permissive() -> (r: Self)
        ensures
            r.policy.policy_dir@ == "policies"@,
            r.policy.default_effect == DefaultEffect::Allow,
            r.risk.enabled && r.risk.detect_destructive && r.risk.detect_secrets
                && r.risk.detect_injection,
            r.risk.approval_threshold is None,
            r.audit.backend == AuditBackend::Memory,
            r.audit.path@ == "veridion-audit.db"@,
            r.approval.default == ApprovalMode::Deny,
            r.telemetry.enable_tracing,
            r.telemetry.log_level@ == "info"@,
    {
        let base = Config::default();
        Config {
            policy: PolicyConfig {
                default_effect: DefaultEffect::Allow,
                policy_dir: base.policy.policy_dir,
            },
            audit: AuditConfig { backend: AuditBackend::Memory, path: base.audit.path },
            risk: base.risk,
            approval: base.approval,
            telemetry: base.telemetry,
        }
    }
}

/// How rules are loaded and what happens when none match.
#[derive(Debug, Clone)]
pub struct PolicyConfig {
    /// Directory of `*.toml` rule files.
    pub policy_dir: String,
    /// Effect applied when no rule matches.
    pub default_effect: DefaultEffect,
}

impl Default for PolicyConfig {
    fn default() -> (r: Self)
        ensures
            r.policy_dir@ == "policies"@,
            r.default_effect == DefaultEffect::Deny,
    {
        PolicyConfig { policy_dir: "policies".to_owned(), default_effect: DefaultEffect::Deny }
    }
}

/// The effect applied when no rule matches an action.
#[derive(Debug, Clone, Copy, PartialEq, Eq, Structural)]
pub enum DefaultEffect {
    /// Allow by default (permissive).
    Allow,
    /// Deny by default (recommended).
    Deny,
    /// Require approval by default.
    RequireApproval,
}

/// Risk analyzer selection and the automatic approval threshold.
#[derive(Debug, Clone)]
pub struct RiskConfig {
    /// Master switch for risk analysis.
    pub enabled: bool,
    /// Enable destructive-command detection.
    pub detect_destructive: bool,
    /// Enable secret-in-argument detection.
    pub detect_secrets: bool,
    /// Enable prompt-injection / jailbreak detection.
    pub detect_injection: bool,
    /// When set, actions scoring at or above this value are escalated to
    /// `require_approval` even if a rule (or the default) would allow them.
    pub approval_threshold: Option<u8>,
}

impl Default for RiskConfig {
    fn default() -> (r: Self)
        ensures
            r.enabled && r.detect_destructive && r.detect_secrets && r.detect_injection,
            r.approval_threshold is None,
    {
        RiskConfig {
            enabled: true,
            detect_destructive: true,
            detect_secrets: true,
            detect_injection: true,
            approval_threshold: None,
        }
    }
}

/// Audit persistence backend.
#[derive(Debug, Clone)]
pub struct AuditConfig {
    /// Which backend to use.
    pub backend: AuditBackend,
    /// SQLite database path (ignored by the in-memory backend).
    pub path: String,
}

impl Default for AuditConfig {
    fn default() -> (r: Self)
        ensures
            r.backend == AuditBackend::Sqlite,
            r.path@ == "veridion-audit.db"@,
    {
        AuditConfig { backend: AuditBackend::Sqlite, path: "veridion-audit.db".to_owned() }
    }
}

/// Supported audit backends.
#[derive(Debug, Clone, Copy, PartialEq, Eq, Structural)]
pub enum AuditBackend {
    /// Durable SQLite storage.
    Sqlite,
    /// Ephemeral in-process storage (tests, dev).
    Memory,
}

/// Approval defaults used when the engine's own workflow resolves an approval.
#[derive(Debug, Clone)]
pub struct ApprovalConfig {
    /// Default resolution when no interactive approver is wired.
    pub default: ApprovalMode,
}

impl Default for ApprovalConfig {
    fn default() -> (r: Self)
        ensures
            r.default == ApprovalMode::Deny,
    {
        ApprovalConfig { default: ApprovalMode::Deny }
    }
}

/// How an unattended approval resolves.
#[derive(Debug, Clone, Copy, PartialEq, Eq, Structural)]
pub enum ApprovalMode {
    /// Refuse anything that needs approval (safe headless default).
    Deny,
    /// Approve anything that needs approval (dangerous; dev only).
    Allow,
    /// Prompt on the terminal.
    Interactive,
}

/// Structured logging / tracing configuration.
#[derive(Debug, Clone)]
pub struct TelemetryConfig {
    /// Whether to install a tracing subscriber.
    pub enable_tracing: bool,
    /// `EnvFilter` directive, e.g. `info` or `veridion=debug`.
    pub log_level: String,
}

impl Default for TelemetryConfig {
    fn default() -> (r: Self)
        ensures
            r.enable_tracing,
            r.log_level@ == "info"@,
    {
        TelemetryConfig { enable_tracing: true, log_level: "info".to_owned() }
    }
}

} // verus!
