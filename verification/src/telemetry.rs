//! Structured logging setup through `tracing-subscriber`.

use std::sync::Arc;

use tracing_subscriber::layer::SubscriberExt;
use tracing_subscriber::util::SubscriberInitExt;

use vstd::prelude::*;

use crate::action::opt_view;
use crate::config::TelemetryConfig;
use crate::text::{chars_of, is_white_space, join2, owned, white_space};

verus! {

/// What `tracing_subscriber::EnvFilter::try_new` reports for a directive:
/// `None` when it parses, otherwise the text of its error.
pub uninterp spec fn env_filter_error(directive: Seq<char>) -> Option<Seq<char>>;

/// Every comma-separated part of a filter directive is empty or starts with a
/// character that is not white space. `EnvFilter::try_new` cuts each part at
/// the character offsets of its trimmed form, so a part with leading white
/// space before a multi-byte character makes it panic; with no leading white
/// space the offsets agree.
pub open spec fn parts_start_unspaced(directive: Seq<char>) -> bool {
    forall|i: int| 0 <= i < directive.len() ==> !#[trigger] spaced_part_at(directive, i)
}

/// A comma-separated part of `directive` starts at `i` with white space.
pub open spec fn spaced_part_at(directive: Seq<char>, i: int) -> bool {
    (i == 0 || directive[i - 1] == ',') && is_white_space(directive[i])
}

/// Calls `tracing_subscriber::EnvFilter::try_new`; the outcome, error text
/// included, is named [`env_filter_error`].
#[verifier::external_body]
fn check_env_filter(directive: &str) -> (r: Result<(), String>)
    requires
        parts_start_unspaced(directive@),
    ensures
        match r {
            Ok(()) => env_filter_error(directive@) is None,
            Err(m) => env_filter_error(directive@) == Some(m@),
        },
{
    match tracing_subscriber::EnvFilter::try_new(directive) {
        Ok(_) => Ok(()),
        Err(err) => Err(err.to_string()),
    }
}

/// Calls `tracing_subscriber::util::SubscriberInitExt::try_init` on a
/// registry with an `EnvFilter` built from `directive` and a formatting layer,
/// installing it as the global default, and on success reports the directive
/// installed. Whether that succeeds depends on whether a global subscriber is
/// already installed, so success is not promised.
#[verifier::external_body]
fn install_global_subscriber(directive: &str) -> (r: Result<String, String>)
    requires
        parts_start_unspaced(directive@),
    ensures
        r matches Ok(d) ==> d@ == directive@,
{
    match tracing_subscriber::EnvFilter::try_new(directive) {
        Ok(filter) => match tracing_subscriber::registry().with(filter).with(
            tracing_subscriber::fmt::layer(),
        ).try_init() {
            Ok(()) => Ok(directive.to_string()),
            Err(err) => Err(err.to_string()),
        },
        Err(err) => Err(err.to_string()),
    }
}

/// Errors from setting up telemetry.
#[derive(Debug, Clone, PartialEq, Eq)]
pub enum TelemetryError {
    /// A subscriber could not be installed.
    Initialization(String),
    /// Neither the configured level nor `info` is a valid filter.
    InvalidConfig(String),
}

impl TelemetryError {
    /// The text of the error.
    pub fn message(&self) -> (r: String)
        ensures
            r@ == match self {
                TelemetryError::Initialization(m) => "failed to initialize telemetry: "@ + m@,
                TelemetryError::InvalidConfig(m) => "invalid telemetry configuration: "@ + m@,
            },
    {
        match self {
            TelemetryError::Initialization(m) => join2("failed to initialize telemetry: ", m.as_str()),
            TelemetryError::InvalidConfig(m) => join2("invalid telemetry configuration: ", m.as_str()),
        }
    }
}

/// Installs tracing according to a [`TelemetryConfig`].
#[derive(Debug, Clone)]
pub struct Telemetry {
    config: Arc<TelemetryConfig>,
    filter: Option<String>,
}

/// The filter directive tracing is installed with: the configured level when
/// it parses, otherwise `info`.
pub open spec fn chosen_directive(level: Seq<char>) -> Seq<char> {
    if env_filter_error(level) is None {
        level
    } else {
        "info"@
    }
}

/// Why tracing cannot be set up for a configured level: a directive part
/// that starts with white space, or neither the level nor `info` parses.
pub open spec fn tracing_problem(level: Seq<char>) -> Option<Seq<char>> {
    if !parts_start_unspaced(level) {
        Some("a filter directive starts with white space: "@ + level)
    } else {
        env_filter_error(chosen_directive(level))
    }
}

fn unspaced(directive: &str) -> (r: bool)
    ensures
        r == parts_start_unspaced(directive@),
{
    let chars = chars_of(directive);
    let n = chars.len();
    let mut i: usize = 0;
    while i < n
        invariant
            n == chars@.len(),
            chars@ == directive@,
            i <= n,
            forall|k: int| 0 <= k < i ==> !#[trigger] spaced_part_at(directive@, k),
        decreases n - i,
    {
        let starts = i == 0 || chars[i - 1] == ',';
        if starts && white_space(chars[i]) {
            assert(spaced_part_at(directive@, i as int));
            return false;
        }
        assert(!spaced_part_at(directive@, i as int));
        i = i + 1;
    }
    true
}

/// The directive tracing is to be installed with: the configured level when
/// `EnvFilter` accepts it, otherwise `info`; the problem when there is one.
fn filter_directive(level: &str) -> (r: Result<String, String>)
    ensures
        match r {
            Ok(d) => tracing_problem(level@) is None && d@ == chosen_directive(level@),
            Err(e) => tracing_problem(level@) == Some(e@),
        },
{
    if !unspaced(level) {
        return Err(join2("a filter directive starts with white space: ", level));
    }
    proof {
        reveal_strlit("info");
        assert(parts_start_unspaced("info"@));
    }
    match check_env_filter(level) {
        Ok(()) => Ok(owned(level)),
        Err(_) => match check_env_filter("info") {
            Ok(()) => Ok(owned("info")),
            Err(e) => Err(e),
        },
    }
}

impl Telemetry {
    /// The configuration in use.
    pub closed spec fn settings(&self) -> TelemetryConfig {
        *self.config
    }

    /// The filter directive of the subscriber this value installed; `None`
    /// when tracing is off.
    pub closed spec fn installed_filter(&self) -> Option<Seq<char>> {
        opt_view(self.filter)
    }

    /// Install a tracing subscriber when `enable_tracing` is set, filtering
    /// with `log_level` (falling back to `info` when it does not parse).
    pub fn new(config: TelemetryConfig) -> (r: Result<Self, TelemetryError>)
        ensures
            !config.enable_tracing ==> (r matches Ok(t) && t.settings() == config),
            (config.enable_tracing && tracing_problem(config.log_level@) is Some) ==> (r matches Err(
                TelemetryError::InvalidConfig(e),
            ) && Some(e@) == tracing_problem(config.log_level@)),
            r matches Ok(t) ==> t.settings() == config && t.installed_filter() == if config.enable_tracing {
                Some(chosen_directive(config.log_level@))
            } else {
                None
            },
            r matches Err(TelemetryError::InvalidConfig(_)) ==> config.enable_tracing
                && tracing_problem(config.log_level@) is Some,
    {
        match Self::init_tracing(&config) {
            Ok(filter) => Ok(Telemetry { config: Arc::new(config), filter }),
            Err(e) => Err(e),
        }
    }

    /// Install the subscriber a configuration asks for; the directive
    /// installed, or `None` when tracing is off.
    fn init_tracing(config: &TelemetryConfig) -> (r: Result<Option<String>, TelemetryError>)
        ensures
            !config.enable_tracing ==> r matches Ok(None),
            (config.enable_tracing && tracing_problem(config.log_level@) is Some) ==> (r matches Err(
                TelemetryError::InvalidConfig(e),
            ) && Some(e@) == tracing_problem(config.log_level@)),
            r matches Ok(f) ==> opt_view(f) == if config.enable_tracing {
                Some(chosen_directive(config.log_level@))
            } else {
                None
            },
            r matches Err(TelemetryError::InvalidConfig(_)) ==> config.enable_tracing
                && tracing_problem(config.log_level@) is Some,
    {
        if !config.enable_tracing {
            return Ok(None);
        }
        let directive = match filter_directive(config.log_level.as_str()) {
            Ok(d) => d,
            Err(e) => {
                return Err(TelemetryError::InvalidConfig(e));
            },
        };
        proof {
            reveal_strlit("info");
            assert(parts_start_unspaced("info"@));
        }
        match install_global_subscriber(directive.as_str()) {
            Ok(installed) => Ok(Some(installed)),
            Err(e) => Err(TelemetryError::Initialization(e)),
        }
    }

    /// The configuration in use.
    pub fn config(&self) -> (r: Arc<TelemetryConfig>)
        ensures
            *r == self.settings(),
    {
        Arc::clone(&self.config)
    }
}

} // verus!
