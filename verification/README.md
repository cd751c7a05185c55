# veridion

A policy authorization layer for AI agent actions. An agent describes what it is
about to do as an `ActionRequest`; Veridion answers allow, deny or require
approval, from ordered policy rules, a non-overridable always-deny floor, a risk
score and an approval workflow, and keeps an audit record of every
authorization.

## Layout

- `src/` — the library, written in Verus. Every function carries a contract
  and is proved against it. The decision procedure is specified in
  `policy.rs` (`evaluation`, `first_match`, `sort_rules`), and the laws the
  engine keeps are public proof functions there (`law_floor_cannot_be_overridden`,
  `law_first_match_wins`, `law_default_effect_applies`,
  `law_allow_only_below_threshold`, `law_rules_sorted`,
  `law_supplied_order_irrelevant`, `law_reordered_engines_agree`), in `risk.rs`
  (`law_added_analyzer_never_lowers_score`,
  `law_score_sums_analyzers_in_order`), `audit.rs`
  (`law_recent_after_record`), `filters.rs` and `server.rs`.
  Calls into `regex`, `globset`, `uuid`, `tracing-subscriber` and a few
  Unicode-aware `str` methods sit behind small trusted wrappers whose results
  are stated, or named by uninterpreted spec functions where they take pages
  to state (`matching.rs`, `text.rs`, `audit.rs`, `telemetry.rs`).
- `app/` — the `veridion` command line tool: reads configuration and policy
  files (TOML), reads a JSON request on stdin, keeps a SQLite copy of the
  audit log, prompts on the terminal for approvals, and prints the
  authorization as JSON.
- `tests/` — executable tests of the library.
