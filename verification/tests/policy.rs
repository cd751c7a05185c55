use veridion::action::{actions, ActionRequest, Subject};
use veridion::config::{Config, DefaultEffect, PolicyConfig};
use veridion::decision::Effect;
use veridion::action::AttributeValue;
use veridion::policy::{
    attr_condition_holds, compile_rules, load_sources, rule_matches_exec, AttrCondition, Conditions, PolicyEngine, PolicyError,
    PolicyRule, PolicySource, RuleEffect,
};
use veridion::risk::{DestructiveCommandAnalyzer, RiskEngine};

fn risk_engine() -> RiskEngine {
    RiskEngine::empty().with_analyzer(Box::new(DestructiveCommandAnalyzer))
}

fn rule(name: &str, priority: Option<u32>, effect: RuleEffect, conditions: Conditions) -> PolicyRule {
    PolicyRule { name: name.to_string(), description: None, priority, effect, conditions }
}

#[test]
fn always_deny_floor_blocks_rm_root() {
    let engine =
        PolicyEngine::with_rules(RuleEffect::Allow, vec![], risk_engine(), None).expect("engine");
    let req = ActionRequest::new(actions::EXEC, "rm -rf / --no-preserve-root");
    let decision = engine.evaluate(&req);
    assert_eq!(decision.effect, Effect::Deny);
    assert!(decision.matched_rule.is_some());
}

#[test]
fn higher_priority_rule_wins() {
    let allow = PolicyRule {
        name: "allow_git".to_string(),
        description: None,
        priority: Some(10),
        effect: RuleEffect::Allow,
        conditions: Conditions { action: Some(actions::EXEC.to_string()), ..Conditions::default() },
    };
    let deny = PolicyRule {
        name: "deny_git_push".to_string(),
        description: None,
        priority: Some(100),
        effect: RuleEffect::Deny,
        conditions: Conditions {
            resource_regex: vec!["git push".to_string()],
            ..Conditions::default()
        },
    };
    let engine =
        PolicyEngine::with_rules(RuleEffect::Deny, vec![allow, deny], RiskEngine::empty(), None)
            .expect("engine");

    let push = ActionRequest::new(actions::EXEC, "git push origin main");
    assert_eq!(engine.evaluate(&push).effect, Effect::Deny);

    let status = ActionRequest::new(actions::EXEC, "git status");
    assert_eq!(engine.evaluate(&status).effect, Effect::Allow);
}

#[test]
fn attribute_and_role_conditions_match() {
    let rule = PolicyRule {
        name: "allow_trusted_in_repo".to_string(),
        description: None,
        priority: Some(50),
        effect: RuleEffect::Allow,
        conditions: Conditions {
            subject_roles: vec!["trusted".to_string()],
            attributes: vec![("repo".to_string(), AttrCondition::Equals("veridion".to_string()))],
            ..Conditions::default()
        },
    };
    let engine = PolicyEngine::with_rules(RuleEffect::Deny, vec![rule], RiskEngine::empty(), None)
        .expect("engine");

    let allowed = ActionRequest::new(actions::FS_WRITE, "src/main.rs")
        .subject(Subject::new("jarvis").with_role("trusted"))
        .attr("repo", "veridion");
    assert_eq!(engine.evaluate(&allowed).effect, Effect::Allow);

    let wrong_repo = ActionRequest::new(actions::FS_WRITE, "src/main.rs")
        .subject(Subject::new("jarvis").with_role("trusted"))
        .attr("repo", "other");
    assert_eq!(engine.evaluate(&wrong_repo).effect, Effect::Deny);

    let missing_role = ActionRequest::new(actions::FS_WRITE, "src/main.rs")
        .subject(Subject::new("jarvis"))
        .attr("repo", "veridion");
    assert_eq!(engine.evaluate(&missing_role).effect, Effect::Deny);
}

#[test]
fn risk_escalates_allow_to_approval() {
    let engine = PolicyEngine::with_rules(RuleEffect::Allow, vec![], risk_engine(), Some(75))
        .expect("engine");
    let req = ActionRequest::new(actions::EXEC, "dd if=/dev/zero of=./disk.img");
    let decision = engine.evaluate(&req);
    assert_eq!(decision.effect, Effect::RequireApproval);
    assert!(decision.risk.value >= 75);
}

#[test]
fn always_deny_floor_beats_risk_escalation() {
    let engine = PolicyEngine::with_rules(RuleEffect::Allow, vec![], risk_engine(), Some(75))
        .expect("engine");
    let req = ActionRequest::new(actions::EXEC, "dd if=/dev/zero of=/dev/sdb");
    assert_eq!(engine.evaluate(&req).effect, Effect::Deny);
}

#[test]
fn escalation_reason_names_score_and_threshold() {
    let engine = PolicyEngine::with_rules(RuleEffect::Allow, vec![], risk_engine(), Some(75))
        .expect("engine");
    let req = ActionRequest::new(actions::EXEC, "dd if=/dev/zero of=./disk.img");
    let decision = engine.evaluate(&req);
    assert_eq!(decision.risk.value, 80);
    assert_eq!(
        decision.reason,
        "no rule matched; default effect 'allow'; escalated: risk 80 ≥ 75"
    );
    assert!(decision.matched_rule.is_none());
}

#[test]
fn floor_reason_names_the_floor_rule() {
    let engine = PolicyEngine::new(RuleEffect::Allow);
    let req = ActionRequest::new(actions::EXEC, "rm -rf / --no-preserve-root");
    let decision = engine.evaluate(&req);
    assert_eq!(decision.effect, Effect::Deny);
    assert!(decision.reason.starts_with("blocked by always-deny floor: "));
    let name = decision.matched_rule.expect("floor rule").name;
    assert!(name.starts_with("floor_"));
    assert_eq!(decision.reason, format!("blocked by always-deny floor: {}", name));
}

#[test]
fn matched_rule_reason_and_reference() {
    let allow = PolicyRule {
        name: "allow_reads".to_string(),
        description: Some("reads are fine".to_string()),
        priority: None,
        effect: RuleEffect::Allow,
        conditions: Conditions { action: Some(actions::FS_READ.to_string()), ..Conditions::default() },
    };
    let engine = PolicyEngine::with_rules(RuleEffect::Deny, vec![allow], RiskEngine::empty(), None)
        .expect("engine");
    let decision = engine.evaluate(&ActionRequest::new(actions::FS_READ, "README.md"));
    assert_eq!(decision.effect, Effect::Allow);
    assert_eq!(decision.reason, "matched rule 'allow_reads'");
    let r = decision.matched_rule.expect("rule");
    assert_eq!(r.name, "allow_reads");
    assert_eq!(r.description, Some("reads are fine".to_string()));

    let other = engine.evaluate(&ActionRequest::new(actions::FS_WRITE, "README.md"));
    assert_eq!(other.effect, Effect::Deny);
    assert_eq!(other.reason, "no rule matched; default effect 'deny'");
}

#[test]
fn invalid_regex_is_rejected_with_rule_name() {
    let bad = rule(
        "bad_regex",
        Some(1),
        RuleEffect::Deny,
        Conditions { resource_regex: vec!["(unclosed".to_string()], ..Conditions::default() },
    );
    match PolicyEngine::with_rules(RuleEffect::Deny, vec![bad], RiskEngine::empty(), None) {
        Err(PolicyError::InvalidRule { rule, reason }) => {
            assert_eq!(rule, "bad_regex");
            assert!(reason.starts_with("invalid regex '(unclosed' in <inline>: "));
        }
        other => panic!("unexpected: {:?}", other.is_ok()),
    }
}

#[test]
fn invalid_glob_is_rejected_with_rule_name() {
    let bad = rule(
        "bad_glob",
        None,
        RuleEffect::Allow,
        Conditions { resource_glob: Some("a[".to_string()), ..Conditions::default() },
    );
    match compile_rules(vec![bad], "policies/bad.toml") {
        Err(PolicyError::InvalidRule { rule, reason }) => {
            assert_eq!(rule, "bad_glob");
            assert!(reason.starts_with("invalid glob 'a[' in policies/bad.toml: "));
        }
        _ => panic!("expected an invalid rule"),
    }
}

#[test]
fn rules_are_ordered_by_priority_then_name() {
    let rules = vec![
        rule("b", Some(5), RuleEffect::Allow, Conditions::default()),
        rule("a", Some(5), RuleEffect::Allow, Conditions::default()),
        rule("z", None, RuleEffect::Allow, Conditions::default()),
        rule("c", Some(50), RuleEffect::Allow, Conditions::default()),
    ];
    let sorted = compile_rules(rules, "<inline>").expect("valid");
    let names: Vec<&str> = sorted.iter().map(|r| r.name.as_str()).collect();
    assert_eq!(names, vec!["c", "a", "b", "z"]);
}

#[test]
fn glob_and_min_risk_conditions() {
    let deny_env = rule(
        "deny_env_files",
        Some(20),
        RuleEffect::Deny,
        Conditions { resource_glob: Some("**/.env".to_string()), ..Conditions::default() },
    );
    let ask_risky = rule(
        "ask_risky",
        Some(10),
        RuleEffect::RequireApproval,
        Conditions { min_risk: Some(50), ..Conditions::default() },
    );
    let engine =
        PolicyEngine::with_rules(RuleEffect::Allow, vec![ask_risky, deny_env], risk_engine(), None)
            .expect("engine");
    let env = engine.evaluate(&ActionRequest::new(actions::FS_READ, "app/.env"));
    assert_eq!(env.effect, Effect::Deny);
    let risky = engine.evaluate(&ActionRequest::new(actions::EXEC, "dd if=/dev/zero of=./disk.img"));
    assert_eq!(risky.effect, Effect::RequireApproval);
    let fine = engine.evaluate(&ActionRequest::new(actions::EXEC, "ls"));
    assert_eq!(fine.effect, Effect::Allow);
}

#[test]
fn load_sources_concatenates_and_sorts() {
    let first = PolicySource {
        path: "a.toml".to_string(),
        rules: vec![rule("low", Some(1), RuleEffect::Allow, Conditions::default())],
    };
    let second = PolicySource {
        path: "b.toml".to_string(),
        rules: vec![rule("high", Some(9), RuleEffect::Deny, Conditions::default())],
    };
    let rules = load_sources(vec![first, second]).expect("valid");
    let names: Vec<&str> = rules.iter().map(|r| r.name.as_str()).collect();
    assert_eq!(names, vec!["high", "low"]);
}

#[test]
fn load_sources_reports_the_file() {
    let bad = PolicySource {
        path: "policies/broken.toml".to_string(),
        rules: vec![rule(
            "broken",
            None,
            RuleEffect::Deny,
            Conditions { resource_regex: vec!["[".to_string()], ..Conditions::default() },
        )],
    };
    match load_sources(vec![bad]) {
        Err(PolicyError::InvalidRule { rule, reason }) => {
            assert_eq!(rule, "broken");
            assert!(reason.starts_with("invalid regex '[' in policies/broken.toml: "));
        }
        _ => panic!("expected an invalid rule"),
    }
}

#[test]
fn reload_keeps_rules_on_error_and_replaces_on_success() {
    let mut engine = PolicyEngine::new(RuleEffect::Deny);
    let config = PolicyConfig { policy_dir: "policies".to_string(), default_effect: DefaultEffect::Allow };
    let good = PolicySource {
        path: "p.toml".to_string(),
        rules: vec![rule(
            "deny_exec",
            None,
            RuleEffect::Deny,
            Conditions { action: Some(actions::EXEC.to_string()), ..Conditions::default() },
        )],
    };
    engine.reload(&config, vec![good]).expect("reload");
    assert_eq!(engine.evaluate(&ActionRequest::new(actions::EXEC, "ls")).effect, Effect::Deny);
    assert_eq!(engine.evaluate(&ActionRequest::new(actions::FS_READ, "x")).effect, Effect::Allow);

    let bad = PolicySource {
        path: "q.toml".to_string(),
        rules: vec![rule(
            "bad",
            None,
            RuleEffect::Allow,
            Conditions { action_glob: Some("[".to_string()), ..Conditions::default() },
        )],
    };
    let deny_config = PolicyConfig { policy_dir: "policies".to_string(), default_effect: DefaultEffect::Deny };
    assert!(engine.reload(&deny_config, vec![bad]).is_err());
    assert_eq!(engine.evaluate(&ActionRequest::new(actions::EXEC, "ls")).effect, Effect::Deny);
    assert_eq!(engine.evaluate(&ActionRequest::new(actions::FS_READ, "x")).effect, Effect::Allow);
}

#[test]
fn from_config_uses_configured_defaults() {
    let config = Config::default();
    let engine = PolicyEngine::from_config(&config, vec![]).expect("engine");
    let decision = engine.evaluate(&ActionRequest::new(actions::NET_REMOTE, "ssh prod uptime"));
    assert_eq!(decision.effect, Effect::Deny);
    let floor = engine.evaluate(&ActionRequest::new(actions::EXEC, "mkfs.ext4 /dev/sda1"));
    assert_eq!(floor.effect, Effect::Deny);
    assert!(floor.reason.contains("always-deny floor"));
}

#[test]
fn policy_error_messages() {
    assert_eq!(
        PolicyError::InvalidRule { rule: "r".to_string(), reason: "bad".to_string() }.message(),
        "invalid policy rule 'r': bad"
    );
    assert_eq!(
        PolicyError::Io("p/x.toml".to_string(), "gone".to_string()).message(),
        "failed to read policy from \"p/x.toml\": gone"
    );
    assert_eq!(
        PolicyError::Parse("p/y.toml".to_string(), "eof".to_string()).message(),
        "failed to parse policy file \"p/y.toml\": eof"
    );
}

#[test]
fn policy_error_paths_are_escaped() {
    for path in ["dir\\with \"quotes\"\n.toml", "ctl\u{1}.toml", "plain/p.toml"] {
        assert_eq!(
            PolicyError::Io(path.to_string(), "gone".to_string()).message(),
            format!("failed to read policy from {:?}: gone", std::path::Path::new(path))
        );
    }
}

#[test]
fn deeply_nested_glob_is_rejected_not_fatal() {
    let pattern = format!("{}a{}", "{".repeat(1000), "}".repeat(1000));
    let bad = rule(
        "too_deep",
        None,
        RuleEffect::Allow,
        Conditions { resource_glob: Some(pattern), ..Conditions::default() },
    );
    match PolicyEngine::with_rules(RuleEffect::Deny, vec![bad], RiskEngine::empty(), None) {
        Err(PolicyError::InvalidRule { rule, reason }) => {
            assert_eq!(rule, "too_deep");
            assert!(reason.starts_with("invalid glob '"));
        }
        _ => panic!("expected an invalid rule"),
    }
}

#[test]
fn rule_and_attribute_matching() {
    let r = rule(
        "r",
        None,
        RuleEffect::Allow,
        Conditions {
            action_glob: Some("fs.*".to_string()),
            max_risk: Some(10),
            attributes: vec![("n".to_string(), AttrCondition::Equals("3".to_string()))],
            ..Conditions::default()
        },
    );
    let req = ActionRequest::new(actions::FS_READ, "x").attr("n", 3i64);
    assert!(rule_matches_exec(&r, &req, 10));
    assert!(!rule_matches_exec(&r, &req, 11));
    assert!(!rule_matches_exec(&r, &ActionRequest::new(actions::EXEC, "x").attr("n", 3i64), 0));
    assert!(!rule_matches_exec(&r, &ActionRequest::new(actions::FS_READ, "x"), 0));
    let three = AttributeValue::from(3i64);
    assert!(attr_condition_holds(&AttrCondition::Equals("3".to_string()), Some(&three)));
    assert!(!attr_condition_holds(&AttrCondition::Exists, None));
    let tags = AttributeValue::from(vec!["a".to_string(), "b".to_string()]);
    assert!(attr_condition_holds(&AttrCondition::OneOf(vec!["z".to_string(), "b".to_string()]), Some(&tags)));
    assert!(!attr_condition_holds(&AttrCondition::Regex("a".to_string()), Some(&tags)));
}

#[test]
fn supplied_order_does_not_matter() {
    let make = || {
        vec![
            rule("b_allow_exec", Some(5), RuleEffect::Allow, Conditions { action: Some(actions::EXEC.to_string()), ..Conditions::default() }),
            rule("a_deny_push", Some(5), RuleEffect::Deny, Conditions { resource_regex: vec!["push".to_string()], ..Conditions::default() }),
            rule("c_ask", None, RuleEffect::RequireApproval, Conditions::default()),
        ]
    };
    let mut reversed = make();
    reversed.reverse();
    let e1 = PolicyEngine::with_rules(RuleEffect::Deny, make(), RiskEngine::empty(), None).expect("engine");
    let e2 = PolicyEngine::with_rules(RuleEffect::Deny, reversed, RiskEngine::empty(), None).expect("engine");
    for (action, resource) in [(actions::EXEC, "git push"), (actions::EXEC, "ls"), (actions::FS_READ, "x")] {
        let req = ActionRequest::new(action, resource);
        assert_eq!(e1.evaluate(&req), e2.evaluate(&req));
    }
    assert_eq!(e1.evaluate(&ActionRequest::new(actions::EXEC, "git push")).effect, Effect::Deny);
}

#[test]
fn attribute_regexes_are_checked_in_name_order() {
    let r = rule(
        "attrs",
        None,
        RuleEffect::Allow,
        Conditions {
            attributes: vec![
                ("zeta".to_string(), AttrCondition::Regex("(z".to_string())),
                ("alpha".to_string(), AttrCondition::Regex("(a".to_string())),
                ("mid".to_string(), AttrCondition::Equals("x".to_string())),
            ],
            ..Conditions::default()
        },
    );
    match compile_rules(vec![r], "p.toml") {
        Err(PolicyError::InvalidRule { rule, reason }) => {
            assert_eq!(rule, "attrs");
            assert!(reason.starts_with("invalid regex '(a' in p.toml: "));
        }
        _ => panic!("expected an invalid rule"),
    }
}
