//! The decision on an enrolment request: PENDING becomes APPROVED or REJECTED,
//! by an operator who is named. The steps alternate with the store and with the
//! journal, whose answers they take.
//!
//! The write that changes the state comes before the journal here, alone of all
//! places: it is what tells two concurrent decisions apart, and a journal that
//! came first could record a decision that lost the race and never took place.
use vstd::prelude::*;

use crate::castore::{Request, RequestState, RequestView, StoreError};
use crate::clock::Timestamp;
use crate::memory::{Memory, StoreView};
use crate::raflow::{is_refusal, RaflowError};
use crate::text::concat2;

verus! {

/// What an operator decides about a request.
#[derive(Debug, Clone, Copy, PartialEq, Eq, Structural)]
pub enum Verdict {
    Approve,
    Reject,
}

impl Verdict {
    /// The state that the verdict leads to.
    pub open spec fn state(self) -> RequestState {
        match self {
            Verdict::Approve => RequestState::Approved,
            Verdict::Reject => RequestState::Rejected,
        }
    }

    /// The event that is recorded.
    pub open spec fn event(self) -> Seq<char> {
        match self {
            Verdict::Approve => "ca.request_approved"@,
            Verdict::Reject => "ca.request_rejected"@,
        }
    }
}

/// An entry of the journal: an event and the fields that go with it.
#[derive(Debug)]
pub struct JournalEntry {
    pub event: String,
    pub fields: Vec<(String, String)>,
}

#[verifier::ext_equal]
pub ghost struct JournalEntryView {
    pub event: Seq<char>,
    pub fields: Seq<(Seq<char>, Seq<char>)>,
}

/// The views of the fields of an entry.
pub open spec fn field_views(fields: Seq<(String, String)>) -> Seq<(Seq<char>, Seq<char>)> {
    fields.map_values(|f: (String, String)| (f.0@, f.1@))
}

impl View for JournalEntry {
    type V = JournalEntryView;

    open spec fn view(&self) -> JournalEntryView {
        JournalEntryView { event: self.event@, fields: field_views(self.fields@) }
    }
}

/// The entry that a decision leaves in the journal.
pub open spec fn decision_entry(verdict: Verdict, r: RequestView) -> JournalEntryView {
    JournalEntryView {
        event: verdict.event(),
        fields: seq![
            ("transaction"@, r.transaction_id),
            ("profil"@, r.profile),
            ("sujet_cn"@, r.subject_cn),
            ("operateur"@, r.operator),
            ("commentaire"@, r.comment),
        ],
    }
}

/// The request once it is decided.
pub open spec fn decided(
    r: RequestView,
    verdict: Verdict,
    operator: Seq<char>,
    comment: Seq<char>,
    now: Timestamp,
) -> RequestView {
    RequestView {
        state: verdict.state(),
        operator,
        comment,
        decided_at: Some(now),
        ..r
    }
}

/// What the journal's refusal becomes.
pub open spec fn journal_fault(text: Seq<char>) -> Seq<char> {
    "journal : "@ + text
}

/// Makes a refusal of the journal's answer.
pub fn journal_refusal(text: &str) -> (e: RaflowError)
    ensures
        is_refusal(e, journal_fault(text@)),
{
    RaflowError::Other(concat2("journal : ", text))
}

/// A decision that an operator takes.
#[derive(Debug)]
pub struct Decision {
    pub transaction_id: String,
    pub operator: String,
    pub comment: String,
    pub verdict: Verdict,
}

/// What to do next, and what to remember for the answer.
#[derive(Debug)]
pub enum DecideStep {
    /// Ask the store for the request of the transaction.
    Load { decision: Decision },
    /// Ask the store to replace the request, if it is still PENDING.
    Write { verdict: Verdict, updated: Request },
    /// Hand the entry to the journal.
    Record { updated: Request, entry: JournalEntry },
    /// Answer the operator.
    Done { result: Result<Request, RaflowError> },
}

/// The answer to a step, of the store or of the journal.
#[derive(Debug)]
#[allow(inconsistent_fields)]
pub enum DecideAnswer {
    /// The request, and the time at which it was read.
    Loaded { result: Result<Request, StoreError>, now: Timestamp },
    Written { result: Result<(), StoreError> },
    Recorded { result: Result<(), String> },
}

impl DecideStep {
    /// A decision names its operator, what is written leaves PENDING for one of
    /// the two decided states under that name, and what is recorded is written.
    pub open spec fn wf(self) -> bool {
        match self {
            DecideStep::Load { decision } => decision.operator@.len() > 0,
            DecideStep::Write { verdict, updated } => {
                &&& updated@.operator.len() > 0
                &&& updated@.state == verdict.state()
            },
            DecideStep::Record { updated, entry } => {
                &&& updated@.operator.len() > 0
                &&& exists|v: Verdict|
                    updated@.state == #[trigger] v.state() && entry@ == decision_entry(v, updated@)
            },
            DecideStep::Done { result } => true,
        }
    }

    /// The answer that the step waits for.
    pub open spec fn awaits(self, answer: DecideAnswer) -> bool {
        match self {
            DecideStep::Load { .. } => answer is Loaded,
            DecideStep::Write { .. } => answer is Written,
            DecideStep::Record { .. } => answer is Recorded,
            DecideStep::Done { .. } => false,
        }
    }
}

/// The step is over with an error.
pub open spec fn fails(step: DecideStep, e: RaflowError) -> bool {
    step matches DecideStep::Done { result } && result == Err::<Request, RaflowError>(e)
}

/// Which step follows the answer of the store to a load.
pub open spec fn follows_load(
    decision: Decision,
    loaded: Result<Request, StoreError>,
    now: Timestamp,
    next: DecideStep,
) -> bool {
    match loaded {
        Err(StoreError::NotFound) => fails(next, RaflowError::NotFound),
        Err(e) => fails(next, RaflowError::Store(e)),
        Ok(r) => if r.state != RequestState::Pending {
            next matches DecideStep::Done { result } && result matches Err(
                RaflowError::NotPending(word),
            ) && word@ == r.state.word()
        } else {
            next matches DecideStep::Write { verdict, updated } && verdict == decision.verdict
                && updated@ == decided(
                r@,
                decision.verdict,
                decision.operator@,
                decision.comment@,
                now,
            )
        },
    }
}

/// Which step follows the answer of the store to the write.
pub open spec fn follows_write(
    verdict: Verdict,
    updated: Request,
    written: Result<(), StoreError>,
    next: DecideStep,
) -> bool {
    match written {
        Ok(_) => next matches DecideStep::Record { updated: u, entry } && u == updated && entry@
            == decision_entry(verdict, updated@),
        Err(StoreError::Conflict) => next matches DecideStep::Done { result } && result matches Err(
            RaflowError::NotPending(word),
        ) && word@ == RequestState::Pending.word(),
        Err(e) => fails(next, RaflowError::Store(e)),
    }
}

/// Which step follows the answer of the journal: the decision stands either
/// way, since it is written.
pub open spec fn follows_record(
    updated: Request,
    recorded: Result<(), String>,
    next: DecideStep,
) -> bool {
    match recorded {
        Ok(_) => next == (DecideStep::Done { result: Ok::<Request, RaflowError>(updated) }),
        Err(text) => next matches DecideStep::Done { result } && result matches Err(e)
            && is_refusal(e, journal_fault(text@)),
    }
}

/// Carries the two transitions out of PENDING. It never holds the authority's
/// key: to approve is to decide, not to sign.
#[derive(Debug)]
pub struct Decider {}

impl Decider {
    /// Needs nothing of its own.
    pub fn new() -> Decider {
        Decider {  }
    }

    /// Starts the transition from PENDING to APPROVED, the only one that leads
    /// there. It calls for the operator's name: that is what makes the decision
    /// imputable (ETSI EN 319 411-1 §6.2.1).
    pub fn approve(&self, transaction_id: &str, operator: &str, comment: &str) -> (r: DecideStep)
        ensures
            begins(r, transaction_id@, operator@, comment@, Verdict::Approve),
            r.wf(),
    {
        self.decide(transaction_id, operator, comment, Verdict::Approve)
    }

    /// Starts the transition from PENDING to REJECTED. Who submitted the
    /// request learns the operator's name and comment at the next submission.
    pub fn reject(&self, transaction_id: &str, operator: &str, comment: &str) -> (r: DecideStep)
        ensures
            begins(r, transaction_id@, operator@, comment@, Verdict::Reject),
            r.wf(),
    {
        self.decide(transaction_id, operator, comment, Verdict::Reject)
    }

    fn decide(&self, transaction_id: &str, operator: &str, comment: &str, verdict: Verdict) -> (r:
        DecideStep)
        ensures
            begins(r, transaction_id@, operator@, comment@, verdict),
            r.wf(),
    {
        if operator.is_empty() {
            return DecideStep::Done {
                result: Err(
                    RaflowError::Other(
                        "la décision exige l'identité de l'opérateur qui la prend".to_owned(),
                    ),
                ),
            };
        }
        DecideStep::Load {
            decision: Decision {
                transaction_id: transaction_id.to_owned(),
                operator: operator.to_owned(),
                comment: comment.to_owned(),
                verdict,
            },
        }
    }

    /// The requests in a state, all of them for `None`, for the operator's
    /// screen.
    pub fn requests(&self, store: &Memory, state: Option<RequestState>) -> (r: Result<
        Vec<Request>,
        RaflowError,
    >)
        requires
            store.wf(),
        ensures
            r matches Ok(list) && crate::memory::lists_requests(
                crate::memory::request_views(list@),
                store@,
                state,
            ),
    {
        match store.requests(state) {
            Ok(list) => Ok(list),
            Err(e) => Err(RaflowError::Store(e)),
        }
    }
}

/// How a decision begins: with the load of the request, or with the refusal of
/// a decision that nobody answers for.
pub open spec fn begins(
    step: DecideStep,
    transaction_id: Seq<char>,
    operator: Seq<char>,
    comment: Seq<char>,
    verdict: Verdict,
) -> bool {
    if operator.len() == 0 {
        step matches DecideStep::Done { result } && result matches Err(e) && is_refusal(
            e,
            "la décision exige l'identité de l'opérateur qui la prend"@,
        )
    } else {
        step matches DecideStep::Load { decision } && decision.transaction_id@ == transaction_id
            && decision.operator@ == operator && decision.comment@ == comment && decision.verdict
            == verdict
    }
}

fn string_pair(name: &str, value: &String) -> (r: (String, String))
    ensures
        r.0@ == name@,
        r.1@ == value@,
{
    (name.to_owned(), value.clone())
}

fn entry_for(verdict: Verdict, r: &Request) -> (e: JournalEntry)
    ensures
        e@ == decision_entry(verdict, r@),
{
    let event = match verdict {
        Verdict::Approve => "ca.request_approved".to_owned(),
        Verdict::Reject => "ca.request_rejected".to_owned(),
    };
    let fields = vec![
        string_pair("transaction", &r.transaction_id),
        string_pair("profil", &r.profile),
        string_pair("sujet_cn", &r.subject_cn),
        string_pair("operateur", &r.operator),
        string_pair("commentaire", &r.comment),
    ];
    let e = JournalEntry { event, fields };
    assert(e@ =~= decision_entry(verdict, r@)) by {
        assert(e@.fields =~= decision_entry(verdict, r@).fields);
    }
    e
}

/// The step that follows an answer.
pub fn advance(step: DecideStep, answer: DecideAnswer) -> (next: DecideStep)
    requires
        step.wf(),
        step.awaits(answer),
    ensures
        next.wf(),
        match (step, answer) {
            (DecideStep::Load { decision }, DecideAnswer::Loaded { result, now }) => follows_load(
                decision,
                result,
                now,
                next,
            ),
            (DecideStep::Write { verdict, updated }, DecideAnswer::Written { result }) =>
                follows_write(verdict, updated, result, next),
            (DecideStep::Record { updated, entry }, DecideAnswer::Recorded { result }) =>
                follows_record(updated, result, next),
            _ => true,
        },
{
    match (step, answer) {
        (DecideStep::Load { decision }, DecideAnswer::Loaded { result, now }) => {
            let r = match result {
                Ok(r) => r,
                Err(StoreError::NotFound) => return DecideStep::Done {
                    result: Err(RaflowError::NotFound),
                },
                Err(e) => return DecideStep::Done { result: Err(RaflowError::Store(e)) },
            };
            if r.state != RequestState::Pending {
                return DecideStep::Done {
                    result: Err(RaflowError::NotPending(r.state.to_string())),
                };
            }
            let mut updated = r;
            updated.state = match decision.verdict {
                Verdict::Approve => RequestState::Approved,
                Verdict::Reject => RequestState::Rejected,
            };
            updated.operator = decision.operator;
            updated.comment = decision.comment;
            updated.decided_at = Some(now);
            assert(updated@ =~= decided(
                r@,
                decision.verdict,
                decision.operator@,
                decision.comment@,
                now,
            ));
            DecideStep::Write { verdict: decision.verdict, updated }
        },
        (DecideStep::Write { verdict, updated }, DecideAnswer::Written { result }) => match result {
            Ok(_) => {
                let entry = entry_for(verdict, &updated);
                assert(updated@.state == verdict.state());
                DecideStep::Record { updated, entry }
            },
            Err(StoreError::Conflict) => DecideStep::Done {
                result: Err(RaflowError::NotPending(RequestState::Pending.to_string())),
            },
            Err(e) => DecideStep::Done { result: Err(RaflowError::Store(e)) },
        },
        (DecideStep::Record { updated, entry }, DecideAnswer::Recorded { result }) => match result {
            Ok(_) => DecideStep::Done { result: Ok(updated) },
            Err(text) => DecideStep::Done { result: Err(journal_refusal(text.as_str())) },
        },
        (step, _) => step,
    }
}

/// What a decision leaves in the store: the request decided, if it was PENDING,
/// else the store as it was.
pub open spec fn decision_effect(
    s: StoreView,
    decision: Decision,
    now: Timestamp,
) -> StoreView {
    let id = decision.transaction_id@;
    if s.requests.dom().contains(id) && s.requests[id].state == RequestState::Pending {
        StoreView {
            requests: s.requests.insert(
                id,
                decided(
                    s.requests[id],
                    decision.verdict,
                    decision.operator@,
                    decision.comment@,
                    now,
                ),
            ),
            ..s
        }
    } else {
        s
    }
}

/// Runs a decision against the store in memory, at a given time and with a
/// given answer of the journal. A journal that fails does not undo the
/// decision: it is written already.
pub fn decide_in_memory(
    store: &mut Memory,
    step: DecideStep,
    now: Timestamp,
    journal: Result<(), String>,
) -> (r: Result<Request, RaflowError>)
    requires
        old(store).wf(),
        step.wf(),
        step is Load || step is Done,
    ensures
        final(store).wf(),
        match step {
            DecideStep::Load { decision } => {
                let id = decision.transaction_id@;
                let before = old(store)@;
                &&& final(store)@ == decision_effect(before, decision, now)
                &&& if !before.requests.dom().contains(id) {
                    r matches Err(RaflowError::NotFound)
                } else if before.requests[id].state != RequestState::Pending {
                    r matches Err(RaflowError::NotPending(word)) && word@
                        == before.requests[id].state.word()
                } else {
                    match journal {
                        Ok(_) => r matches Ok(q) && q@ == final(store)@.requests[id],
                        Err(text) => r matches Err(e) && is_refusal(e, journal_fault(text@)),
                    }
                }
            },
            DecideStep::Done { result } => r == result && final(store)@ == old(store)@,
            _ => true,
        },
{
    proof {
        store.store_is_coherent();
    }
    let decision = match step {
        DecideStep::Load { decision } => decision,
        DecideStep::Done { result } => return result,
        _ => return Err(RaflowError::NotFound),
    };
    let loaded = store.request_by_transaction_id(decision.transaction_id.as_str());
    let second = advance(
        DecideStep::Load { decision },
        DecideAnswer::Loaded { result: loaded, now },
    );
    let (verdict, updated) = match second {
        DecideStep::Write { verdict, updated } => (verdict, updated),
        DecideStep::Done { result } => return result,
        _ => return Err(RaflowError::NotFound),
    };
    let written = store.update_request(updated.clone(), RequestState::Pending);
    let third = advance(
        DecideStep::Write { verdict, updated },
        DecideAnswer::Written { result: written },
    );
    match third {
        DecideStep::Record { updated, entry } => {
            let last = advance(
                DecideStep::Record { updated, entry },
                DecideAnswer::Recorded { result: journal },
            );
            match last {
                DecideStep::Done { result } => result,
                _ => Err(RaflowError::NotFound),
            }
        },
        DecideStep::Done { result } => result,
        _ => Err(RaflowError::NotFound),
    }
}

/// The transitions that requests make: a decision out of PENDING, and the issue
/// of what is approved.
pub open spec fn transition(from: RequestState, to: RequestState) -> bool {
    ||| from == RequestState::Pending && to == RequestState::Approved
    ||| from == RequestState::Pending && to == RequestState::Rejected
    ||| from == RequestState::Approved && to == RequestState::Issued
}

/// No request is issued that was not approved: every run of transitions from
/// PENDING to ISSUED goes through APPROVED.
pub proof fn nothing_is_issued_unapproved(states: Seq<RequestState>) -> (i: int)
    requires
        states.len() > 0,
        states[0] == RequestState::Pending,
        states.last() == RequestState::Issued,
        forall|k: int|
            0 <= k < states.len() - 1 ==> transition(#[trigger] states[k], states[k + 1]),
    ensures
        0 < i < states.len() - 1,
        states[i] == RequestState::Approved,
{
    let n = states.len() as int;
    assert(transition(states[n - 2], states[n - 1]));
    n - 2
}

/// What is rejected or issued stays so: no transition leaves either state.
pub proof fn rejected_and_issued_are_final(from: RequestState, to: RequestState)
    requires
        from == RequestState::Rejected || from == RequestState::Issued,
    ensures
        !transition(from, to),
{
}

/// Every write of a decision is a transition out of PENDING, under the name of
/// an operator, and keeps all else of the request.
pub proof fn decisions_are_imputable(
    r: RequestView,
    verdict: Verdict,
    operator: Seq<char>,
    comment: Seq<char>,
    now: Timestamp,
)
    requires
        r.state == RequestState::Pending,
        operator.len() > 0,
    ensures
        ({
            let after = decided(r, verdict, operator, comment, now);
            &&& transition(r.state, after.state)
            &&& after.operator.len() > 0
            &&& after.decided_at == Some(now)
            &&& after.transaction_id == r.transaction_id
            &&& after.csr_fingerprint == r.csr_fingerprint
            &&& after.csr_der == r.csr_der
            &&& after.certificate_serial == r.certificate_serial
        }),
{
}

/// Of two decisions on one request the first stands: the second finds it
/// decided and changes nothing.
pub proof fn first_decision_stands(
    s: StoreView,
    first: Decision,
    second: Decision,
    at: Timestamp,
    later: Timestamp,
)
    requires
        first.transaction_id@ == second.transaction_id@,
        s.requests.dom().contains(first.transaction_id@),
    ensures
        decision_effect(decision_effect(s, first, at), second, later) == decision_effect(
            s,
            first,
            at,
        ),
{
}

} // verus!
