//! Audit logging of authorization decisions.
//!
//! Every call to [`Veridion::authorize`](crate::engine::Veridion::authorize)
//! produces an [`AuditRecord`] describing what was requested, what the engine
//! decided, and how any approval resolved. Records are kept in an
//! [`AuditLog`], an in-memory, append-only list.

use vstd::prelude::*;

use crate::action::{opt_view, ActionRequest, RequestView};
use crate::approval::ApprovalOutcome;
use crate::decision::{ActionDecision, DecisionView, Effect};
use crate::text::join2;

verus! {

/// A lowercase hexadecimal digit.
pub open spec fn is_lower_hex(c: char) -> bool {
    ('0' <= c && c <= '9') || ('a' <= c && c <= 'f')
}

/// The text of a random (version 4) UUID as `uuid` prints it: 36 characters,
/// hyphens at 8, 13, 18 and 23, lowercase hexadecimal elsewhere, version digit
/// `4` at 14 and an RFC variant digit (`8`, `9`, `a` or `b`) at 19.
pub open spec fn is_uuid_v4_text(s: Seq<char>) -> bool {
    &&& s.len() == 36
    &&& forall|i: int|
        0 <= i < 36 ==> if i == 8 || i == 13 || i == 18 || i == 23 {
            #[trigger] s[i] == '-'
        } else {
            is_lower_hex(s[i])
        }
    &&& s[14] == '4'
    &&& (s[19] == '8' || s[19] == '9' || s[19] == 'a' || s[19] == 'b')
}

/// Calls `uuid::Uuid::new_v4` and formats the id with `to_string` (the
/// hyphenated lowercase form). The id is random: only its shape is stated.
#[verifier::external_body]
fn new_record_id() -> (r: String)
    ensures
        is_uuid_v4_text(r@),
{
    uuid::Uuid::new_v4().to_string()
}

/// A single audit record: the request, the decision, and any approval
/// outcome.
#[derive(Debug, Clone, PartialEq, Eq)]
pub struct AuditRecord {
    /// Unique record id.
    pub id: String,
    /// The subject that requested the action.
    pub subject: String,
    /// The action verb.
    pub action: String,
    /// The action's target resource.
    pub resource: String,
    /// The decided effect.
    pub effect: Effect,
    /// Why the engine decided this way.
    pub reason: String,
    /// The computed risk score (0–100).
    pub risk: u8,
    /// The rule that matched, if any.
    pub matched_rule: Option<String>,
    /// How an approval resolved, when the decision required one.
    pub approval: Option<ApprovalOutcome>,
}

/// The mathematical model of an [`AuditRecord`].
pub struct RecordView {
    pub id: Seq<char>,
    pub subject: Seq<char>,
    pub action: Seq<char>,
    pub resource: Seq<char>,
    pub effect: Effect,
    pub reason: Seq<char>,
    pub risk: u8,
    pub matched_rule: Option<Seq<char>>,
    pub approval: Option<ApprovalOutcome>,
}

impl View for AuditRecord {
    type V = RecordView;

    open spec fn view(&self) -> RecordView {
        RecordView {
            id: self.id@,
            subject: self.subject@,
            action: self.action@,
            resource: self.resource@,
            effect: self.effect,
            reason: self.reason@,
            risk: self.risk,
            matched_rule: opt_view(self.matched_rule),
            approval: self.approval,
        }
    }
}

/// The record of a request and its decision under a given id, with no
/// approval.
pub open spec fn record_of(id: Seq<char>, request: RequestView, decision: DecisionView) -> RecordView {
    RecordView {
        id,
        subject: request.subject.id,
        action: request.action,
        resource: request.resource,
        effect: decision.effect,
        reason: decision.reason,
        risk: decision.risk.value,
        matched_rule: match decision.matched_rule {
            Some(r) => Some(r.name),
            None => None,
        },
        approval: None,
    }
}

impl AuditRecord {
    /// Build a record from a request and the decision it produced, under a
    /// fresh random id.
    pub fn from_decision(request: &ActionRequest, decision: &ActionDecision) -> (r: Self)
        ensures
            r@ == record_of(r@.id, request@, decision@),
            is_uuid_v4_text(r@.id),
    {
        AuditRecord {
            id: new_record_id(),
            subject: request.subject.id.clone(),
            action: request.action.clone(),
            resource: request.resource.clone(),
            effect: decision.effect,
            reason: decision.reason.clone(),
            risk: decision.risk.value,
            matched_rule: match &decision.matched_rule {
                Some(rule) => Some(rule.name.clone()),
                None => None,
            },
            approval: None,
        }
    }

    /// Attach the approval outcome for a decision that required one.
    pub fn with_approval(self, outcome: ApprovalOutcome) -> (r: Self)
        ensures
            r@ == (RecordView { approval: Some(outcome), ..self@ }),
    {
        let mut r = self;
        r.approval = Some(outcome);
        r
    }

    /// A copy of this record.
    pub fn duplicate(&self) -> (r: Self)
        ensures
            r@ == self@,
    {
        AuditRecord {
            id: self.id.clone(),
            subject: self.subject.clone(),
            action: self.action.clone(),
            resource: self.resource.clone(),
            effect: self.effect,
            reason: self.reason.clone(),
            risk: self.risk,
            matched_rule: match &self.matched_rule {
                Some(name) => Some(name.clone()),
                None => None,
            },
            approval: self.approval,
        }
    }
}

/// Errors from a durable audit backend.
#[derive(Debug, Clone, PartialEq, Eq)]
pub enum AuditError {
    /// The audit database directory could not be created.
    Io(String),
    /// A database operation failed.
    Database(String),
    /// A record could not be (de)serialized.
    Serialization(String),
}

impl AuditError {
    /// The text of the error.
    pub fn message(&self) -> (r: String)
        ensures
            r@ == match self {
                AuditError::Io(m) => "audit io error: "@ + m@,
                AuditError::Database(m) => "audit database error: "@ + m@,
                AuditError::Serialization(m) => "audit serialization error: "@ + m@,
            },
    {
        match self {
            AuditError::Io(m) => join2("audit io error: ", m.as_str()),
            AuditError::Database(m) => join2("audit database error: ", m.as_str()),
            AuditError::Serialization(m) => join2("audit serialization error: ", m.as_str()),
        }
    }
}

/// The most recent `limit` records of a log, newest first.
pub open spec fn newest_first(log: Seq<RecordView>, limit: nat) -> Seq<RecordView> {
    let n = if limit < log.len() {
        limit as int
    } else {
        log.len() as int
    };
    log.reverse().take(n)
}

/// A record copies what it describes: the subject id, action and resource
/// of the request; the effect, reason and risk value of the decision; the
/// name of the matched rule, if any; and no approval.
pub proof fn law_record_copies_request_and_decision(
    id: Seq<char>,
    request: RequestView,
    decision: DecisionView,
)
    ensures
        record_of(id, request, decision).id == id,
        record_of(id, request, decision).subject == request.subject.id,
        record_of(id, request, decision).action == request.action,
        record_of(id, request, decision).resource == request.resource,
        record_of(id, request, decision).effect == decision.effect,
        record_of(id, request, decision).reason == decision.reason,
        record_of(id, request, decision).risk == decision.risk.value,
        decision.matched_rule matches Some(r) ==> record_of(id, request, decision).matched_rule
            == Some(r.name),
        decision.matched_rule is None ==> record_of(id, request, decision).matched_rule is None,
        record_of(id, request, decision).approval is None,
{
}

/// A newest-first listing holds the last `limit` records (all of them when
/// there are fewer), the most recent first.
pub proof fn law_newest_first(log: Seq<RecordView>, limit: nat)
    ensures
        newest_first(log, limit).len() == if limit < log.len() {
            limit
        } else {
            log.len()
        },
        forall|i: int|
            0 <= i < newest_first(log, limit).len() ==> #[trigger] newest_first(log, limit)[i]
                == log[log.len() - 1 - i],
{
}

/// Reading back a write: once a record is appended, the newest-first listing
/// of up to `limit + 1` records is that record followed by the newest-first
/// listing of up to `limit` of the records before it.
pub proof fn law_recent_after_record(log: Seq<RecordView>, record: RecordView, limit: nat)
    ensures
        newest_first(log.push(record), limit + 1) == seq![record] + newest_first(log, limit),
{
    let a = newest_first(log.push(record), limit + 1);
    let b = seq![record] + newest_first(log, limit);
    assert(log.push(record).reverse() =~= seq![record] + log.reverse());
    assert(a.len() == b.len());
    assert forall|i: int| 0 <= i < a.len() implies a[i] == b[i] by {
        if i > 0 {
            assert(log.push(record).reverse()[i] == log.reverse()[i - 1]);
        }
    }
    assert(a =~= b);
}

/// An append-only, in-memory log of authorization decisions.
pub struct AuditLog {
    records: Vec<AuditRecord>,
}

impl View for AuditLog {
    type V = Seq<RecordView>;

    closed spec fn view(&self) -> Seq<RecordView> {
        self.records@.map_values(|r: AuditRecord| r@)
    }
}

impl AuditLog {
    /// An empty in-memory log.
    pub fn memory() -> (r: Self)
        ensures
            r@ == Seq::<RecordView>::empty(),
    {
        let r = AuditLog { records: Vec::new() };
        assert(r@ =~= Seq::<RecordView>::empty());
        r
    }

    /// Append a record. The in-memory log never fails.
    pub fn record(&mut self, record: &AuditRecord) -> (r: Result<(), AuditError>)
        ensures
            r is Ok,
            final(self)@ == old(self)@.push(record@),
    {
        let ghost before = self.records@;
        self.records.push(record.duplicate());
        assert(self@ =~= before.map_values(|r: AuditRecord| r@).push(record@));
        Ok(())
    }

    /// The most recent records, newest first (up to `limit`).
    pub fn recent(&self, limit: usize) -> (r: Result<Vec<AuditRecord>, AuditError>)
        ensures
            r matches Ok(v) && v@.map_values(|x: AuditRecord| x@) == newest_first(
                self@,
                limit as nat,
            ),
    {
        let ghost log = self@;
        let n = self.records.len();
        let mut out: Vec<AuditRecord> = Vec::new();
        let mut i: usize = 0;
        while i < n && i < limit
            invariant
                n == self.records@.len(),
                log == self@,
                log.len() == n,
                i <= n,
                i <= limit,
                out@.len() == i,
                forall|k: int| 0 <= k < i ==> (#[trigger] out@[k])@ == log.reverse()[k],
            decreases n - i,
        {
            assert(log.reverse()[i as int] == log[n - 1 - i]);
            assert(log[n - 1 - i] == self.records@[n - 1 - i]@);
            out.push(self.records[n - 1 - i].duplicate());
            i = i + 1;
        }
        assert(out@.map_values(|x: AuditRecord| x@) =~= newest_first(log, limit as nat));
        Ok(out)
    }

    /// The number of records.
    pub fn len(&self) -> (r: usize)
        ensures
            r == self@.len(),
    {
        self.records.len()
    }
}

} // verus!
