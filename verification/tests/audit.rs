use veridion::action::{actions, ActionRequest, Subject};
use veridion::approval::ApprovalOutcome;
use veridion::audit::{AuditError, AuditLog, AuditRecord};
use veridion::decision::{ActionDecision, Effect, RuleRef};

#[test]
fn memory_backend_round_trips() {
    let mut log = AuditLog::memory();
    let req = ActionRequest::new(actions::EXEC, "ls -la");
    let decision = ActionDecision::allow("ok");
    let record = AuditRecord::from_decision(&req, &decision);
    log.record(&record).expect("record");

    let recent = log.recent(10).expect("recent");
    assert_eq!(recent.len(), 1);
    assert_eq!(recent[0].action, "exec");
    assert_eq!(recent[0].effect, Effect::Allow);
}

#[test]
fn recent_is_newest_first_and_limited() {
    let mut log = AuditLog::memory();
    for resource in ["a", "b", "c"] {
        let req = ActionRequest::new(actions::FS_READ, resource);
        let record = AuditRecord::from_decision(&req, &ActionDecision::deny("no"));
        log.record(&record).expect("record");
    }
    assert_eq!(log.len(), 3);
    let two = log.recent(2).expect("recent");
    assert_eq!(two.len(), 2);
    assert_eq!(two[0].resource, "c");
    assert_eq!(two[1].resource, "b");
    assert_eq!(log.recent(0).expect("recent").len(), 0);
    assert_eq!(log.recent(99).expect("recent").len(), 3);
}

#[test]
fn record_copies_request_and_decision() {
    let req = ActionRequest::new(actions::FS_WRITE, "/etc/hosts")
        .subject(Subject::new("jarvis"));
    let decision = ActionDecision::require_approval("matched rule 'ask'")
        .with_rule(RuleRef::new("ask", None));
    let record = AuditRecord::from_decision(&req, &decision).with_approval(ApprovalOutcome::Denied);
    assert_eq!(record.id.len(), 36);
    let chars: Vec<char> = record.id.chars().collect();
    for (i, c) in chars.iter().enumerate() {
        if [8, 13, 18, 23].contains(&i) {
            assert_eq!(*c, '-');
        } else {
            assert!(c.is_ascii_hexdigit() && !c.is_ascii_uppercase());
        }
    }
    assert_eq!(chars[14], '4');
    assert!(matches!(chars[19], '8' | '9' | 'a' | 'b'));
    assert_eq!(record.subject, "jarvis");
    assert_eq!(record.action, "fs.write");
    assert_eq!(record.resource, "/etc/hosts");
    assert_eq!(record.effect, Effect::RequireApproval);
    assert_eq!(record.reason, "matched rule 'ask'");
    assert_eq!(record.risk, 0);
    assert_eq!(record.matched_rule.as_deref(), Some("ask"));
    assert_eq!(record.approval, Some(ApprovalOutcome::Denied));
    let other = AuditRecord::from_decision(&req, &decision);
    assert_ne!(other.id, record.id);
}

#[test]
fn recent_after_record_reads_back_the_write() {
    let mut log = AuditLog::memory();
    let first = AuditRecord::from_decision(&ActionRequest::new(actions::EXEC, "a"), &ActionDecision::deny("x"));
    log.record(&first).expect("record");
    let before = log.recent(1).expect("recent");
    let second = AuditRecord::from_decision(&ActionRequest::new(actions::EXEC, "b"), &ActionDecision::allow("y"));
    log.record(&second).expect("record");
    let after = log.recent(2).expect("recent");
    assert_eq!(after[0], second);
    assert_eq!(after[1..].to_vec(), before);
}

#[test]
fn audit_error_messages() {
    assert_eq!(AuditError::Io("denied".to_string()).message(), "audit io error: denied");
    assert_eq!(AuditError::Database("locked".to_string()).message(), "audit database error: locked");
    assert_eq!(
        AuditError::Serialization("eof".to_string()).message(),
        "audit serialization error: eof"
    );
}
