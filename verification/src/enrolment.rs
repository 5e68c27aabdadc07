//! Whole enrolments against the store in memory: what a submission leaves in
//! the store and answers, what an issue leaves there, and the promises that
//! follow.
use vstd::prelude::*;

use crate::asn1::copy_of;
use crate::castore::{
    Certificate, CertificateStatus, CertificateView, RequestState, RequestView, StoreError,
};
use crate::clock::{Duration, Timestamp};
use crate::decision::{decision_effect, journal_fault, transition, Decision};
use crate::memory::{
    active, line_views, lists_lines, revoked_line, visible, Memory, StoreView,
};
use crate::raflow::{authentic, common_name_of, fingerprint_of, RaflowError};
use crate::submission::{
    ends_with, follows, follows_issued, issued_request, other_profile, refuses, serials_in, waits,
    Candidate, Flow, Issue, Issued, Revocation, SubmitAnswer, SubmitStep, SUPERSEDED,
};
use crate::x509::byte_views;

verus! {

/// The store with a new request.
pub open spec fn with_request(s: StoreView, r: RequestView) -> StoreView {
    StoreView {
        requests: s.requests.insert(r.transaction_id, r),
        by_fingerprint: s.by_fingerprint.insert(r.csr_fingerprint, r.transaction_id),
        ..s
    }
}

/// The request that a certification request opens.
pub open spec fn opening(
    csr_der: Seq<u8>,
    profile: Seq<char>,
    cn: Seq<char>,
    now: Timestamp,
) -> RequestView {
    RequestView {
        transaction_id: fingerprint_of(csr_der).take(32),
        csr_fingerprint: fingerprint_of(csr_der),
        csr_der,
        profile,
        subject_cn: cn,
        state: RequestState::Pending,
        created_at: now,
        decided_at: None,
        operator: seq![],
        comment: seq![],
        issued_at: None,
        certificate_serial: None,
    }
}

/// What who submits again is answered: that the enrolment waits, why it was
/// refused, or the step that issues or fetches the certificate.
pub open spec fn answers_again(
    q: RequestView,
    opened: RequestView,
    profile_name: Seq<char>,
    public_key_info: Seq<u8>,
    retry_after: Duration,
    step: SubmitStep,
) -> bool {
    if q.profile != profile_name {
        refuses(step, other_profile(q.profile, profile_name))
    } else {
        match q.state {
            RequestState::Pending => waits(step, q.transaction_id, retry_after),
            RequestState::Rejected => step matches SubmitStep::Done { result } && result matches Err(
                RaflowError::Rejected { operator, comment },
            ) && operator@ == q.operator && comment@ == q.comment,
            RequestState::Approved => step matches SubmitStep::Subject { issue } && {
                &&& issue.request@ == q
                &&& issue.profile@ == opened.profile
                &&& issue.cn@ == opened.subject_cn
                &&& issue.spki_der@ == public_key_info
            },
            RequestState::Issued => match q.certificate_serial {
                None => refuses(
                    step,
                    "demande "@ + q.transaction_id + " marquée émise sans certificat associé"@,
                ),
                Some(s) => step matches SubmitStep::Fetch { transaction_id, serial }
                    && transaction_id@ == q.transaction_id && serial@ == s,
            },
        }
    }
}

/// What a certification request that is admitted leaves in the store, and what
/// is answered: a known one changes nothing, a new one is opened if the journal
/// takes it.
pub open spec fn found_or_opened(
    before: StoreView,
    after: StoreView,
    opened: RequestView,
    profile_name: Seq<char>,
    public_key_info: Seq<u8>,
    journal: Result<(), String>,
    retry_after: Duration,
    step: SubmitStep,
) -> bool {
    let fingerprint = opened.csr_fingerprint;
    if before.by_fingerprint.dom().contains(fingerprint) {
        after == before && answers_again(
            before.requests[before.by_fingerprint[fingerprint]],
            opened,
            profile_name,
            public_key_info,
            retry_after,
            step,
        )
    } else {
        match journal {
            Err(text) => after == before && refuses(step, journal_fault(text@)),
            Ok(_) => if before.requests.dom().contains(opened.transaction_id) {
                after == before && ends_with(step, RaflowError::Store(StoreError::Conflict))
            } else {
                after == with_request(before, opened) && waits(
                    step,
                    opened.transaction_id,
                    retry_after,
                )
            },
        }
    }
}

/// What the authority and the journal answer while a submission runs.
#[derive(Debug)]
pub struct Surroundings {
    /// The name of the profile.
    pub profile: Result<String, String>,
    /// Whether the profile admits the common name.
    pub named: Result<(), String>,
    pub journal: Result<(), String>,
    pub now: Timestamp,
}

/// What a whole submission leaves in the store and answers, up to its end or to
/// the step that issues or fetches the certificate.
pub open spec fn submitted(
    flow: Flow,
    before: StoreView,
    after: StoreView,
    csr_der: Seq<u8>,
    profile_name: Seq<char>,
    signature_hex: Seq<char>,
    around: Surroundings,
    step: SubmitStep,
) -> bool {
    if !authentic(csr_der, flow.opts.hmac_secret@, signature_hex) {
        ends_with(step, RaflowError::Unauthenticated) && after == before
    } else {
        match around.profile {
            Err(text) => ends_with(step, RaflowError::Other(text)) && after == before,
            Ok(profile) => match crate::x509::request_of(csr_der) {
                Err(fault) => {
                    &&& after == before
                    &&& step matches SubmitStep::Done { result }
                    &&& result matches Err(RaflowError::Der(text))
                    &&& text@ == fault
                },
                Ok(csr) => match crate::raflow::request_fault(csr) {
                    Some(text) => refuses(step, text) && after == before,
                    None => match around.named {
                        Err(text) => ends_with(step, RaflowError::Other(text)) && after == before,
                        Ok(_) => found_or_opened(
                            before,
                            after,
                            opening(csr_der, profile@, common_name_of(csr.subject), around.now),
                            profile_name,
                            csr.public_key_info,
                            around.journal,
                            flow.opts.retry_after,
                            step,
                        ),
                    },
                },
            },
        }
    }
}

/// Runs a submission against the store in memory, up to its end or to the step
/// that issues or fetches the certificate.
pub fn submit_in_memory(
    flow: &Flow,
    store: &mut Memory,
    csr_der: &[u8],
    profile_name: &str,
    signature_hex: &str,
    around: Surroundings,
) -> (r: SubmitStep)
    requires
        old(store).wf(),
    ensures
        final(store).wf(),
        r.wf(),
        submitted(
            *flow,
            old(store)@,
            final(store)@,
            csr_der@,
            profile_name@,
            signature_hex@,
            around,
            r,
        ),
{
    let first = flow.submit(csr_der, profile_name, signature_hex);
    let second = match first {
        SubmitStep::Profile { csr_der, profile_name } => flow.advance(
            SubmitStep::Profile { csr_der, profile_name },
            SubmitAnswer::Profile { result: around.profile },
        ),
        other => return other,
    };
    let third = match second {
        SubmitStep::CheckName { candidate } => flow.advance(
            SubmitStep::CheckName { candidate },
            SubmitAnswer::NameChecked { result: around.named },
        ),
        other => return other,
    };
    let candidate = match third {
        SubmitStep::Find { candidate } => candidate,
        other => return other,
    };
    find_or_open(flow, store, candidate, around.now, around.journal)
}

fn find_or_open(
    flow: &Flow,
    store: &mut Memory,
    candidate: Candidate,
    now: Timestamp,
    journal: Result<(), String>,
) -> (r: SubmitStep)
    requires
        old(store).wf(),
        candidate.fingerprint@ == fingerprint_of(candidate.csr_der@),
    ensures
        final(store).wf(),
        r.wf(),
        found_or_opened(
            old(store)@,
            final(store)@,
            opening(candidate.csr_der@, candidate.profile@, candidate.cn@, now),
            candidate.profile_name@,
            candidate.spki_der@,
            journal,
            flow.opts.retry_after,
            r,
        ),
{
    let found = store.request_by_fingerprint(candidate.fingerprint.as_str());
    let next = flow.advance(
        SubmitStep::Find { candidate },
        SubmitAnswer::Found { result: found, now },
    );
    let (request, entry) = match next {
        SubmitStep::Record { request, entry } => (request, entry),
        other => return other,
    };
    assert(request@ =~= opening(candidate.csr_der@, candidate.profile@, candidate.cn@, now));
    let recorded = flow.advance(
        SubmitStep::Record { request, entry },
        SubmitAnswer::Recorded { result: journal },
    );
    let request = match recorded {
        SubmitStep::Create { request } => request,
        other => return other,
    };
    let created = store.create_request(request.clone());
    flow.advance(SubmitStep::Create { request }, SubmitAnswer::Created { result: created })
}

/// The register once some of its certificates are revoked.
pub open spec fn all_revoked(
    lines: Map<Seq<u8>, CertificateView>,
    serials: Seq<Seq<u8>>,
    at: Timestamp,
    reason: i32,
) -> Map<Seq<u8>, CertificateView> {
    Map::new(
        |k: Seq<u8>| lines.dom().contains(k),
        |k: Seq<u8>|
            if serials.contains(k) {
                revoked_line(lines[k], at, reason)
            } else {
                lines[k]
            },
    )
}

/// The serial numbers of a list of lines.
pub open spec fn serials_of_lines(list: Seq<CertificateView>) -> Seq<Seq<u8>> {
    list.map_values(|c: CertificateView| c.serial)
}

/// The store once a certificate is issued: its line is in the register, its
/// request is ISSUED, and the ones it supersedes are revoked.
pub open spec fn issued_store(
    s: StoreView,
    request: RequestView,
    line: CertificateView,
    previous: Seq<CertificateView>,
    now: Timestamp,
) -> StoreView {
    StoreView {
        certificates: all_revoked(
            s.certificates.insert(line.serial, line),
            serials_of_lines(previous),
            now,
            SUPERSEDED,
        ),
        requests: s.requests.insert(
            request.transaction_id,
            issued_request(request, line.serial, now),
        ),
        ..s
    }
}

/// The authority refuses, with what the store said about its serial number.
pub open spec fn authority_refuses(step: SubmitStep, e: StoreError) -> bool {
    step matches SubmitStep::Done { result } && result matches Err(RaflowError::Ca(text)) && text@
        == e.message()
}

/// Runs the issue of an approved request against the store in memory, up to the
/// publication. The authority signs the certificate of the line that is given,
/// and saves it under the serial number that it reserved.
pub fn issue_in_memory(
    flow: &Flow,
    store: &mut Memory,
    issue: Issue,
    subject_dn: String,
    line: Certificate,
    now: Timestamp,
) -> (r: SubmitStep)
    requires
        old(store).wf(),
        issue.request@.state == RequestState::Approved,
    ensures
        final(store).wf(),
        r.wf(),
        ({
            let before = old(store)@;
            let id = issue.request@.transaction_id;
            let saved = StoreView {
                certificates: before.certificates.insert(line@.serial, line@),
                ..before
            };
            if !before.certificates.dom().contains(line@.serial) {
                authority_refuses(r, StoreError::NotFound) && final(store)@ == before
            } else if visible(before, line@.serial) {
                authority_refuses(r, StoreError::Conflict) && final(store)@ == before
            } else if !before.requests.dom().contains(id) {
                ends_with(r, RaflowError::Store(StoreError::NotFound)) && final(store)@ == saved
            } else if before.requests[id].state != RequestState::Approved {
                ends_with(r, RaflowError::Store(StoreError::Conflict)) && final(store)@ == saved
            } else {
                &&& r matches SubmitStep::Publish { issued }
                &&& issued.transaction_id@ == id
                &&& issued.der@ == line@.der
                &&& exists|previous: Seq<CertificateView>|
                    {
                        &&& #[trigger] lists_lines(previous, before, active(subject_dn@, now))
                        &&& final(store)@ == issued_store(
                            before,
                            issue.request@,
                            line@,
                            previous,
                            now,
                        )
                    }
            }
        }),
{
    let ghost before = store@;
    let second = flow.advance(
        SubmitStep::Subject { issue },
        SubmitAnswer::Subject { result: Ok(subject_dn), now },
    );
    let (issue, subject_dn, now) = match second {
        SubmitStep::Active { issue, subject_dn, now } => (issue, subject_dn, now),
        other => return other,
    };
    let listed = store.active_by_subject(subject_dn.as_str(), now);
    let ghost lines = listed->Ok_0@;
    let ghost previous = line_views(lines);
    let third = flow.advance(
        SubmitStep::Active { issue, subject_dn, now },
        SubmitAnswer::Active { result: listed },
    );
    let (issue, serials, now) = match third {
        SubmitStep::Sign { issue, previous, now } => (issue, previous, now),
        other => return other,
    };
    proof {
        assert(serials_in(lines) =~= serials_of_lines(previous));
    }
    let serial = copy_of(line.serial.as_slice());
    let der = copy_of(line.der.as_slice());
    let signed = match store.save_certificate(line) {
        Ok(_) => Ok((serial, der)),
        Err(e) => Err(e.to_string()),
    };
    let fourth = flow.advance(
        SubmitStep::Sign { issue, previous: serials, now },
        SubmitAnswer::Signed { result: signed },
    );
    let (updated, issued) = match fourth {
        SubmitStep::Update { updated, issued } => (updated, issued),
        other => return other,
    };
    let written = store.update_request(updated.clone(), RequestState::Approved);
    let fifth = flow.advance(
        SubmitStep::Update { updated, issued },
        SubmitAnswer::Updated { result: written },
    );
    match fifth {
        SubmitStep::Revoke { revocation, issued } => {
            proof {
                superseded_are_visible(before, line@, previous, active(subject_dn@, now));
                let serials = byte_views(issued.previous@);
                assert forall|i: int| 0 <= i < issued.previous@.len() implies visible(
                    store@,
                    (#[trigger] issued.previous@[i])@,
                ) by {
                    assert(serials[i] == previous[i].serial);
                }
            }
            supersede_in_memory(flow, store, revocation, issued, now)
        },
        other => other,
    }
}

/// The revocations that follow an issue, up to the publication.
fn supersede_in_memory(
    flow: &Flow,
    store: &mut Memory,
    revocation: Revocation,
    issued: Issued,
    now: Timestamp,
) -> (r: SubmitStep)
    requires
        old(store).wf(),
        issued.position == 0,
        issued.previous@.len() > 0,
        follows_issued(issued, (SubmitStep::Revoke { revocation, issued })),
        forall|i: int|
            0 <= i < issued.previous@.len() ==> visible(
                old(store)@,
                (#[trigger] issued.previous@[i])@,
            ),
    ensures
        final(store).wf(),
        r.wf(),
        r matches SubmitStep::Publish { issued: i } && i.transaction_id == issued.transaction_id
            && i.der == issued.der,
        final(store)@ == (StoreView {
            certificates: all_revoked(
                old(store)@.certificates,
                byte_views(issued.previous@),
                now,
                SUPERSEDED,
            ),
            ..old(store)@
        }),
{
    let ghost start = store@;
    let ghost serials = byte_views(issued.previous@);
    let mut due = revocation;
    let mut state = issued;
    proof {
        assert(all_revoked(start.certificates, serials.take(0), now, SUPERSEDED)
            =~= start.certificates);
    }
    loop
        invariant
            store.wf(),
            start == old(store)@,
            serials == byte_views(issued.previous@),
            state.previous == issued.previous,
            state.transaction_id == issued.transaction_id,
            state.der == issued.der,
            0 <= state.position < state.previous@.len(),
            follows_issued(state, (SubmitStep::Revoke { revocation: due, issued: state })),
            forall|i: int|
                0 <= i < issued.previous@.len() ==> visible(
                    start,
                    (#[trigger] issued.previous@[i])@,
                ),
            store@ == (StoreView {
                certificates: all_revoked(
                    start.certificates,
                    serials.take(state.position as int),
                    now,
                    SUPERSEDED,
                ),
                ..start
            }),
        decreases state.previous@.len() - state.position,
    {
        let ghost k = state.position as int;
        proof {
            assert(state.position < state.previous.len());
            assert(visible(start, issued.previous@[k]@));
            assert(serials[k] == due.serial@);
            revoke_one_more(start.certificates, serials, k, now, SUPERSEDED);
        }
        let revoked = match store.revoke(&due.serial, now, due.reason) {
            Ok(_) => Ok(()),
            Err(e) => Err(e.to_string()),
        };
        let next = flow.advance(
            SubmitStep::Revoke { revocation: due, issued: state },
            SubmitAnswer::Revoked { result: revoked },
        );
        match next {
            SubmitStep::Revoke { revocation: r, issued: i } => {
                due = r;
                state = i;
            },
            other => {
                proof {
                    assert(serials.take(serials.len() as int) =~= serials);
                }
                return other;
            },
        }
    }
}

proof fn revoke_one_more(
    lines: Map<Seq<u8>, CertificateView>,
    serials: Seq<Seq<u8>>,
    k: int,
    at: Timestamp,
    reason: i32,
)
    requires
        0 <= k < serials.len(),
        lines.dom().contains(serials[k]),
        lines[serials[k]].status != CertificateStatus::Reserved,
    ensures
        ({
            let before = all_revoked(lines, serials.take(k), at, reason);
            &&& before.dom().contains(serials[k])
            &&& before[serials[k]].status != CertificateStatus::Reserved
            &&& before.insert(serials[k], revoked_line(before[serials[k]], at, reason))
                == all_revoked(lines, serials.take(k + 1), at, reason)
        }),
{
    let before = all_revoked(lines, serials.take(k), at, reason);
    let after = all_revoked(lines, serials.take(k + 1), at, reason);
    let longer = serials.take(k + 1);
    assert(longer =~= serials.take(k).push(serials[k]));
    assert forall|s: Seq<u8>| #[trigger] longer.contains(s) <==> serials.take(k).contains(s) || s
        == serials[k] by {
        if serials.take(k).contains(s) {
            let i = choose|i: int| 0 <= i < k && serials.take(k)[i] == s;
            assert(longer[i] == s);
        }
        assert(longer[k] == serials[k]);
    }
    assert(before.insert(serials[k], revoked_line(before[serials[k]], at, reason)) =~= after);
}

proof fn superseded_are_visible(
    s: StoreView,
    line: CertificateView,
    previous: Seq<CertificateView>,
    keep: spec_fn(CertificateView) -> bool,
)
    requires
        lists_lines(previous, s, keep),
        forall|c: CertificateView| #[trigger] keep(c) ==> c.status == CertificateStatus::Issued,
        s.certificates.dom().contains(line.serial),
        s.certificates[line.serial].status == CertificateStatus::Reserved,
    ensures
        forall|i: int|
            0 <= i < previous.len() ==> {
                let serial = (#[trigger] previous[i]).serial;
                serial != line.serial && visible(s, serial)
            },
{
    assert forall|i: int| 0 <= i < previous.len() implies {
        let serial = (#[trigger] previous[i]).serial;
        serial != line.serial && visible(s, serial)
    } by {
        assert(previous.contains(previous[i]));
    }
}

/// Once a certificate is issued it is the only active one of its subject: every
/// other is revoked, as superseded and at that time, and the new one never
/// revokes itself.
pub proof fn one_active_certificate_per_subject(
    s: StoreView,
    request: RequestView,
    line: CertificateView,
    previous: Seq<CertificateView>,
    subject_dn: Seq<char>,
    now: Timestamp,
)
    requires
        lists_lines(previous, s, active(subject_dn, now)),
        crate::memory::coherent(s),
        s.certificates.dom().contains(line.serial),
        s.certificates[line.serial].status == CertificateStatus::Reserved,
    ensures
        ({
            let after = issued_store(s, request, line, previous, now);
            &&& after.certificates[line.serial] == line
            &&& forall|k: Seq<u8>| #[trigger]
                after.certificates.dom().contains(k) && active(subject_dn, now)(
                    after.certificates[k],
                ) ==> k == line.serial
            &&& forall|c: CertificateView| #[trigger]
                previous.contains(c) ==> after.certificates[c.serial] == revoked_line(
                    c,
                    now,
                    SUPERSEDED,
                ) && after.certificates[c.serial].status == CertificateStatus::Revoked
        }),
{
    let after = issued_store(s, request, line, previous, now);
    let serials = serials_of_lines(previous);
    superseded_are_visible(s, line, previous, active(subject_dn, now));
    assert(!serials.contains(line.serial));
    assert forall|k: Seq<u8>| #[trigger]
        after.certificates.dom().contains(k) && active(subject_dn, now)(
            after.certificates[k],
        ) implies k == line.serial by {
        if k != line.serial {
            if serials.contains(k) {
                let i = choose|i: int| 0 <= i < serials.len() && serials[i] == k;
                assert(previous.contains(previous[i]));
            } else {
                let c = s.certificates[k];
                assert(c.serial == k);
                assert(previous.contains(c));
                let i = choose|i: int| 0 <= i < previous.len() && previous[i] == c;
                assert(serials[i] == k);
            }
        }
    }
    assert forall|c: CertificateView| #[trigger] previous.contains(c) implies after.certificates[c.serial]
        == revoked_line(c, now, SUPERSEDED) by {
        let i = choose|i: int| 0 <= i < previous.len() && previous[i] == c;
        assert(serials[i] == c.serial);
    }
}

/// The transaction of a certification request.
pub open spec fn transaction_of(csr_der: Seq<u8>) -> Seq<char> {
    fingerprint_of(csr_der).take(32)
}

/// Every enrolment has the transaction that its fingerprint gives, and no two
/// have the same fingerprint.
pub open spec fn enrolled(s: StoreView) -> bool {
    &&& forall|f: Seq<char>| #[trigger]
        s.by_fingerprint.dom().contains(f) ==> {
            &&& s.by_fingerprint[f] == f.take(32)
            &&& s.requests.dom().contains(f.take(32))
            &&& s.requests[f.take(32)].csr_fingerprint == f
        }
    &&& forall|k: Seq<char>| #[trigger]
        s.requests.dom().contains(k) ==> {
            &&& s.requests[k].transaction_id == k
            &&& s.by_fingerprint.dom().contains(s.requests[k].csr_fingerprint)
            &&& s.by_fingerprint[s.requests[k].csr_fingerprint] == k
        }
}

/// The empty store has no enrolment that is out of order.
pub proof fn nothing_is_enrolled()
    ensures
        enrolled(crate::memory::nothing()),
{
}

/// A submission keeps the enrolments in order.
pub proof fn submission_keeps_enrolments(
    flow: Flow,
    before: StoreView,
    after: StoreView,
    csr_der: Seq<u8>,
    profile_name: Seq<char>,
    signature_hex: Seq<char>,
    around: Surroundings,
    step: SubmitStep,
)
    requires
        enrolled(before),
        submitted(
            flow,
            before,
            after,
            csr_der,
            profile_name,
            signature_hex,
            around,
            step,
        ),
    ensures
        enrolled(after),
{
}

/// A decision keeps the enrolments in order.
pub proof fn decision_keeps_enrolments(s: StoreView, decision: Decision, now: Timestamp)
    requires
        enrolled(s),
    ensures
        enrolled(decision_effect(s, decision, now)),
{
}

/// An issue keeps the enrolments in order.
pub proof fn issue_keeps_enrolments(
    s: StoreView,
    request: RequestView,
    line: CertificateView,
    previous: Seq<CertificateView>,
    now: Timestamp,
)
    requires
        enrolled(s),
        s.requests.dom().contains(request.transaction_id),
        s.requests[request.transaction_id].csr_fingerprint == request.csr_fingerprint,
    ensures
        enrolled(issued_store(s, request, line, previous, now)),
{
}

/// The enrolment of a certification request is in one store as in another: it
/// was neither decided nor issued in between.
pub open spec fn untouched(a: StoreView, b: StoreView, csr_der: Seq<u8>) -> bool {
    let fingerprint = fingerprint_of(csr_der);
    let id = transaction_of(csr_der);
    &&& a.by_fingerprint.dom().contains(fingerprint) ==> b.by_fingerprint.dom().contains(
        fingerprint,
    )
    &&& a.requests.dom().contains(id) ==> b.requests.dom().contains(id) && b.requests[id]
        == a.requests[id]
}

/// A certification request that is submitted twice opens one enrolment: where
/// the first submission is answered that it waits, and no decision is taken in
/// between, the second is answered the same under the same transaction, and
/// leaves the store as it was, with that one enrolment PENDING. The authority
/// opened it for the profile of the name that was asked for, still knows that
/// profile and still admits the common name; all else may differ, the time and
/// the journal included.
pub proof fn resubmission_is_idempotent(
    flow: Flow,
    start: StoreView,
    opened: StoreView,
    later: StoreView,
    after: StoreView,
    csr_der: Seq<u8>,
    profile_name: Seq<char>,
    signature_hex: Seq<char>,
    first_around: Surroundings,
    first: SubmitStep,
    second_around: Surroundings,
    second: SubmitStep,
)
    requires
        enrolled(start),
        enrolled(later),
        submitted(
            flow,
            start,
            opened,
            csr_der,
            profile_name,
            signature_hex,
            first_around,
            first,
        ),
        first matches SubmitStep::Done { result } && result matches Ok(a) && a.state
            == RequestState::Pending,
        !start.by_fingerprint.dom().contains(fingerprint_of(csr_der)) ==> (
        first_around.profile matches Ok(profile) && profile@ == profile_name),
        untouched(opened, later, csr_der),
        submitted(
            flow,
            later,
            after,
            csr_der,
            profile_name,
            signature_hex,
            second_around,
            second,
        ),
        second_around.profile is Ok,
        second_around.named is Ok,
    ensures
        waits(first, transaction_of(csr_der), flow.opts.retry_after),
        waits(second, transaction_of(csr_der), flow.opts.retry_after),
        after == later,
        enrolled(opened),
        after.requests.dom().contains(transaction_of(csr_der)),
        after.requests[transaction_of(csr_der)].state == RequestState::Pending,
        forall|k: Seq<char>| #[trigger]
            after.requests.dom().contains(k) && after.requests[k].csr_fingerprint
                == fingerprint_of(csr_der) ==> k == transaction_of(csr_der),
{
}

/// Whatever the authority and the journal answer, to submit again what is
/// PENDING leads to no certificate and changes nothing: it is answered that the
/// enrolment waits, or with an error.
pub proof fn pending_is_never_issued(
    flow: Flow,
    before: StoreView,
    after: StoreView,
    csr_der: Seq<u8>,
    profile_name: Seq<char>,
    signature_hex: Seq<char>,
    around: Surroundings,
    step: SubmitStep,
)
    requires
        enrolled(before),
        before.requests.dom().contains(transaction_of(csr_der)),
        before.requests[transaction_of(csr_der)].csr_fingerprint == fingerprint_of(csr_der),
        before.requests[transaction_of(csr_der)].state == RequestState::Pending,
        submitted(
            flow,
            before,
            after,
            csr_der,
            profile_name,
            signature_hex,
            around,
            step,
        ),
    ensures
        after == before,
        waits(step, transaction_of(csr_der), flow.opts.retry_after) || (
        step matches SubmitStep::Done { result } && result is Err),
{
}

/// One store follows from another by a submission, or by an issue, which
/// replaces no request but one that is APPROVED.
pub open spec fn moves(flow: Flow, before: StoreView, after: StoreView) -> bool {
    ||| exists|
        csr_der: Seq<u8>,
        profile_name: Seq<char>,
        signature_hex: Seq<char>,
        around: Surroundings,
        step: SubmitStep,
    |
        #[trigger] submitted(
            flow,
            before,
            after,
            csr_der,
            profile_name,
            signature_hex,
            around,
            step,
        )
    ||| after.requests == before.requests
    ||| exists|request: RequestView, serial: Seq<u8>, now: Timestamp|
        before.requests.dom().contains(request.transaction_id)
            && before.requests[request.transaction_id].state == RequestState::Approved
            && after.requests == before.requests.insert(
            request.transaction_id,
            #[trigger] issued_request(request, serial, now),
        )
}

/// The stores follow from one another by submissions and issues alone.
pub open spec fn only_submissions(flow: Flow, stores: Seq<StoreView>) -> bool
    decreases stores.len(),
{
    stores.len() > 1 ==> {
        &&& only_submissions(flow, stores.drop_last())
        &&& moves(flow, stores[stores.len() - 2], stores.last())
    }
}

/// No number of submissions decides anything: while only submissions and issues
/// take place, a request that is PENDING stays as it is.
pub proof fn submissions_decide_nothing(flow: Flow, stores: Seq<StoreView>, id: Seq<char>)
    requires
        stores.len() > 0,
        only_submissions(flow, stores),
        stores[0].requests.dom().contains(id),
        stores[0].requests[id].state == RequestState::Pending,
    ensures
        stores.last().requests.dom().contains(id),
        stores.last().requests[id] == stores[0].requests[id],
    decreases stores.len(),
{
    if stores.len() > 1 {
        let shorter = stores.drop_last();
        submissions_decide_nothing(flow, shorter, id);
        assert(shorter.last() == stores[stores.len() - 2]);
    }
}

/// An opening that the journal does not take leaves nothing in the store.
pub proof fn unrecorded_opening_leaves_nothing(
    s: StoreView,
    opened: RequestView,
    profile_name: Seq<char>,
    public_key_info: Seq<u8>,
    journal: Result<(), String>,
    retry_after: Duration,
    after: StoreView,
    step: SubmitStep,
)
    requires
        journal is Err,
        found_or_opened(
            s,
            after,
            opened,
            profile_name,
            public_key_info,
            journal,
            retry_after,
            step,
        ),
    ensures
        after == s,
{
}

/// Every write of an issue is a transition out of APPROVED, and keeps the
/// decision and all else of the request.
pub proof fn issue_keeps_the_decision(r: RequestView, serial: Seq<u8>, now: Timestamp)
    requires
        r.state == RequestState::Approved,
    ensures
        ({
            let after = issued_request(r, serial, now);
            &&& transition(r.state, after.state)
            &&& after.operator == r.operator
            &&& after.decided_at == r.decided_at
            &&& after.transaction_id == r.transaction_id
            &&& after.csr_fingerprint == r.csr_fingerprint
            &&& after.certificate_serial == Some(serial)
            &&& after.issued_at == Some(now)
        }),
{
}

/// Whoever is handed a certificate is handed it after the list with its serial
/// number was published: a submission ends with a certificate only after a
/// publication that succeeded, or where the certificate was issued before.
pub proof fn delivered_after_publication(
    flow: Flow,
    step: SubmitStep,
    answer: SubmitAnswer,
    next: SubmitStep,
)
    requires
        step.awaits(answer),
        follows(flow, step, answer, next),
        next matches SubmitStep::Done { result } && result matches Ok(r) && r.state
            == RequestState::Issued,
    ensures
        (step is Publish && (answer matches SubmitAnswer::Published { result, .. } && result is Ok))
            || step is Fetch,
{
}

/// Nothing is signed for a request that is not APPROVED: the step that signs
/// follows only from one that was found so.
pub proof fn only_approved_requests_are_signed(
    flow: Flow,
    step: SubmitStep,
    answer: SubmitAnswer,
    next: SubmitStep,
)
    requires
        step.wf(),
        step.awaits(answer),
        follows(flow, step, answer, next),
    ensures
        next matches SubmitStep::Subject { issue } ==> (answer matches SubmitAnswer::Found {
            result,
            ..
        } && (result matches Ok(r) && r.state == RequestState::Approved && issue.request == r)),
        next matches SubmitStep::Sign { issue, .. } ==> issue.request@.state
            == RequestState::Approved,
{
}

} // verus!
