//! The submission of a certification request: it opens an enrolment, reports on
//! one that waits, or turns an approved one into a certificate. The steps
//! alternate with the store, the journal and the authority, whose answers they
//! take.
//!
//! An opening is recorded in the journal before it is stored: a journal that
//! fails leaves nothing behind, and the submission can be made again.
use vstd::prelude::*;
use vstd::string::StringExecFns;

use crate::asn1::copy_of;
use crate::castore::{Certificate, Request, RequestState, RequestView, Serial, StoreError};
use crate::clock::{Duration, Timestamp};
use crate::crypto::hex_encode;
use crate::decision::{
    journal_fault, journal_refusal, Decider, JournalEntry, JournalEntryView,
};
use crate::raflow::{fingerprint, is_refusal, parse_and_verify_csr, transaction_id, verify_hmac};
use crate::raflow::{authentic, fingerprint_of, RaflowError};
use crate::text::{concat2, concat3, debug_string, str_eq};

verus! {

/// How enrolments are received.
#[derive(Debug)]
pub struct Options {
    /// Authenticates who submits. An empty secret would make enrolment
    /// anonymous.
    pub hmac_secret: String,
    /// How long who waits for a decision should wait before asking again.
    pub retry_after: Duration,
}

/// Receives submissions.
#[derive(Debug)]
pub struct Flow {
    pub decider: Decider,
    pub opts: Options,
}

/// The outcome of a submission.
#[derive(Debug)]
pub struct SubmitResult {
    pub state: RequestState,
    pub transaction_id: String,
    /// Given while the enrolment awaits a decision.
    pub retry_after: Option<Duration>,
    /// The encoding of the certificate, once it is issued.
    pub certificate: Option<Vec<u8>>,
    /// The encodings of the certificates up to the root, once it is issued.
    pub chain: Vec<Vec<u8>>,
}

/// A certification request that is authenticated, well formed and signed by its
/// own key.
#[derive(Debug)]
pub struct Candidate {
    pub csr_der: Vec<u8>,
    /// The profile that was asked for.
    pub profile_name: String,
    /// The name of the profile that was found.
    pub profile: String,
    pub cn: String,
    pub spki_der: Vec<u8>,
    pub fingerprint: String,
}

/// An approved request that is being issued.
#[derive(Debug)]
pub struct Issue {
    pub request: Request,
    pub profile: String,
    pub cn: String,
    pub spki_der: Vec<u8>,
}

/// A certificate that was just signed, and those that it supersedes.
#[derive(Debug)]
pub struct Issued {
    pub transaction_id: String,
    pub serial: Serial,
    pub der: Vec<u8>,
    pub previous: Vec<Serial>,
    /// How many of the previous ones are revoked.
    pub position: usize,
}

/// A revocation to ask of the authority.
#[derive(Debug)]
pub struct Revocation {
    pub serial: Serial,
    /// A reason code of RFC 5280 §5.3.1.
    pub reason: i32,
    pub operator: String,
    pub comment: String,
}

/// The reason code "superseded".
pub const SUPERSEDED: i32 = 4;

/// What to do next, and what to remember for the answer.
#[derive(Debug)]
pub enum SubmitStep {
    /// Ask the authority for the profile with the name that was given.
    Profile { csr_der: Vec<u8>, profile_name: String },
    /// Ask the authority whether the profile admits the common name.
    CheckName { candidate: Candidate },
    /// Ask the store for the request with the fingerprint.
    Find { candidate: Candidate },
    /// Hand the entry to the journal.
    Record { request: Request, entry: JournalEntry },
    /// Ask the store to create the request.
    Create { request: Request },
    /// Ask the authority for the subject that the profile gives the name.
    Subject { issue: Issue },
    /// Ask the store for the active certificates of the subject.
    Active { issue: Issue, subject_dn: String, now: Timestamp },
    /// Ask the authority to sign.
    Sign { issue: Issue, previous: Vec<Serial>, now: Timestamp },
    /// Ask the store to replace the request, if it is still APPROVED.
    Update { updated: Request, issued: Issued },
    /// Ask the authority to revoke a certificate that is superseded.
    Revoke { revocation: Revocation, issued: Issued },
    /// Ask the authority to publish a revocation list, which tells responders
    /// of the new serial number.
    Publish { issued: Issued },
    /// Ask the store for the certificate that was issued.
    Fetch { transaction_id: String, serial: Serial },
    /// Answer who submitted.
    Done { result: Result<SubmitResult, RaflowError> },
}

/// The answer to a step.
#[derive(Debug)]
#[allow(inconsistent_fields)]
pub enum SubmitAnswer {
    /// The name of the profile.
    Profile { result: Result<String, String> },
    NameChecked { result: Result<(), String> },
    /// The request, and the time at which it was looked for.
    Found { result: Result<Request, StoreError>, now: Timestamp },
    Recorded { result: Result<(), String> },
    Created { result: Result<(), StoreError> },
    /// The subject, and the time of the issue.
    Subject { result: Result<String, String>, now: Timestamp },
    Active { result: Result<Vec<Certificate>, StoreError> },
    /// The serial number and the encoding of the certificate.
    Signed { result: Result<(Serial, Vec<u8>), String> },
    Updated { result: Result<(), StoreError> },
    Revoked { result: Result<(), String> },
    Published { result: Result<(), String>, chain: Vec<Vec<u8>> },
    Fetched { result: Result<Certificate, StoreError>, chain: Vec<Vec<u8>> },
}

/// The submission is over with an error.
pub open spec fn ends_with(step: SubmitStep, e: RaflowError) -> bool {
    step matches SubmitStep::Done { result } && result == Err::<SubmitResult, RaflowError>(e)
}

/// The submission is over with a refusal.
pub open spec fn refuses(step: SubmitStep, text: Seq<char>) -> bool {
    step matches SubmitStep::Done { result } && result matches Err(e) && is_refusal(e, text)
}

/// The submission is over: the enrolment awaits a decision.
pub open spec fn waits(step: SubmitStep, transaction_id: Seq<char>, retry_after: Duration) -> bool {
    step matches SubmitStep::Done { result } && result matches Ok(r) && r.state
        == RequestState::Pending && r.transaction_id@ == transaction_id && r.retry_after == Some(
        retry_after,
    ) && r.certificate is None && r.chain@.len() == 0
}

/// The submission is over: here is the certificate.
pub open spec fn delivers(
    step: SubmitStep,
    transaction_id: Seq<char>,
    certificate: Seq<u8>,
    chain: Vec<Vec<u8>>,
) -> bool {
    step matches SubmitStep::Done { result } && result matches Ok(r) && {
        &&& r.state == RequestState::Issued
        &&& r.transaction_id@ == transaction_id
        &&& r.retry_after is None
        &&& r.certificate matches Some(der)
        &&& der@ == certificate
        &&& r.chain == chain
    }
}

/// The request that an opening creates.
pub open spec fn opened(c: Candidate, now: Timestamp) -> RequestView {
    RequestView {
        transaction_id: fingerprint_of(c.csr_der@).take(32),
        csr_fingerprint: c.fingerprint@,
        csr_der: c.csr_der@,
        profile: c.profile@,
        subject_cn: c.cn@,
        state: RequestState::Pending,
        created_at: now,
        decided_at: None,
        operator: seq![],
        comment: seq![],
        issued_at: None,
        certificate_serial: None,
    }
}

/// The entry that an opening leaves in the journal.
pub open spec fn opening_entry(r: RequestView) -> JournalEntryView {
    JournalEntryView {
        event: "ca.request_received"@,
        fields: seq![
            ("transaction"@, r.transaction_id),
            ("profil"@, r.profile),
            ("sujet_cn"@, r.subject_cn),
            ("empreinte"@, r.csr_fingerprint),
        ],
    }
}

/// The request once its certificate is issued.
pub open spec fn issued_request(r: RequestView, serial: Seq<u8>, now: Timestamp) -> RequestView {
    RequestView {
        state: RequestState::Issued,
        issued_at: Some(now),
        certificate_serial: Some(serial),
        ..r
    }
}

/// Which step follows the answer about the profile: the certification request
/// is read and verified.
pub open spec fn follows_profile(
    csr_der: Vec<u8>,
    profile_name: String,
    found: Result<String, String>,
    next: SubmitStep,
) -> bool {
    match found {
        Err(text) => ends_with(next, RaflowError::Other(text)),
        Ok(profile) => match crate::x509::request_of(csr_der@) {
            Err(fault) => next matches SubmitStep::Done { result } && result matches Err(
                RaflowError::Der(text),
            ) && text@ == fault,
            Ok(csr) => match crate::raflow::request_fault(csr) {
                Some(text) => refuses(next, text),
                None => next matches SubmitStep::CheckName { candidate } && {
                    &&& candidate.csr_der == csr_der
                    &&& candidate.profile_name == profile_name
                    &&& candidate.profile == profile
                    &&& candidate.cn@ == crate::raflow::common_name_of(csr.subject)
                    &&& candidate.spki_der@ == csr.public_key_info
                    &&& candidate.fingerprint@ == fingerprint_of(csr_der@)
                },
            },
        },
    }
}

/// Which step follows the answer about the common name.
pub open spec fn follows_name(
    candidate: Candidate,
    checked: Result<(), String>,
    next: SubmitStep,
) -> bool {
    match checked {
        Err(text) => ends_with(next, RaflowError::Other(text)),
        Ok(_) => next == (SubmitStep::Find { candidate }),
    }
}

/// What is said where the enrolment was opened for another profile.
pub open spec fn other_profile(first: Seq<char>, now: Seq<char>) -> Seq<char> {
    "cette demande a été soumise pour le profil "@ + crate::text::debug_text(first) + ", pas "@
        + crate::text::debug_text(now)
}

/// Which step follows the answer of the store to the search.
pub open spec fn follows_find(
    retry_after: Duration,
    candidate: Candidate,
    found: Result<Request, StoreError>,
    now: Timestamp,
    next: SubmitStep,
) -> bool {
    match found {
        Err(StoreError::NotFound) => next matches SubmitStep::Record { request, entry } && request@
            == opened(candidate, now) && entry@ == opening_entry(request@),
        Err(e) => ends_with(next, RaflowError::Store(e)),
        Ok(r) => if r.profile@ != candidate.profile_name@ {
            refuses(next, other_profile(r.profile@, candidate.profile_name@))
        } else {
            follows_existing(retry_after, candidate, r, next)
        },
    }
}

/// Which step takes up an enrolment that exists.
pub open spec fn follows_existing(
    retry_after: Duration,
    candidate: Candidate,
    r: Request,
    next: SubmitStep,
) -> bool {
    match r.state {
        RequestState::Pending => waits(next, r.transaction_id@, retry_after),
        RequestState::Rejected => ends_with(
            next,
            RaflowError::Rejected { operator: r.operator, comment: r.comment },
        ),
        RequestState::Approved => next matches SubmitStep::Subject { issue } && issue.request == r
            && issue.profile == candidate.profile && issue.cn == candidate.cn && issue.spki_der
            == candidate.spki_der,
        RequestState::Issued => match r.certificate_serial {
            None => refuses(
                next,
                "demande "@ + r.transaction_id@ + " marquée émise sans certificat associé"@,
            ),
            Some(serial) => next == (SubmitStep::Fetch {
                transaction_id: r.transaction_id,
                serial,
            }),
        },
    }
}

/// Which step follows the answer of the journal to an opening.
pub open spec fn follows_record(
    request: Request,
    recorded: Result<(), String>,
    next: SubmitStep,
) -> bool {
    match recorded {
        Err(text) => refuses(next, journal_fault(text@)),
        Ok(_) => next == (SubmitStep::Create { request }),
    }
}

/// Which step follows the answer of the store to the creation.
pub open spec fn follows_create(
    retry_after: Duration,
    request: Request,
    created: Result<(), StoreError>,
    next: SubmitStep,
) -> bool {
    match created {
        Err(e) => ends_with(next, RaflowError::Store(e)),
        Ok(_) => waits(next, request.transaction_id@, retry_after),
    }
}

/// Which step follows the answer about the subject: the active certificates are
/// looked for before anything is signed, else the new one would be among them.
pub open spec fn follows_subject(
    issue: Issue,
    subject: Result<String, String>,
    now: Timestamp,
    next: SubmitStep,
) -> bool {
    match subject {
        Err(text) => ends_with(next, RaflowError::Ca(text)),
        Ok(subject_dn) => next == (SubmitStep::Active { issue, subject_dn, now }),
    }
}

/// The serial numbers of a list of certificates.
pub open spec fn serials_in(list: Seq<Certificate>) -> Seq<Seq<u8>> {
    list.map_values(|c: Certificate| c@.serial)
}

/// Which step follows the answer of the store about active certificates.
pub open spec fn follows_active(
    issue: Issue,
    now: Timestamp,
    active: Result<Vec<Certificate>, StoreError>,
    next: SubmitStep,
) -> bool {
    match active {
        Err(e) => ends_with(next, RaflowError::Store(e)),
        Ok(list) => next matches SubmitStep::Sign { issue: i, previous, now: t } && i == issue && t
            == now && crate::x509::byte_views(previous@) == serials_in(list@),
    }
}

/// Which step follows the answer of the authority to the signature.
pub open spec fn follows_sign(
    issue: Issue,
    previous: Vec<Serial>,
    now: Timestamp,
    signed: Result<(Serial, Vec<u8>), String>,
    next: SubmitStep,
) -> bool {
    match signed {
        Err(text) => ends_with(next, RaflowError::Ca(text)),
        Ok((serial, der)) => next matches SubmitStep::Update { updated, issued } && updated@
            == issued_request(issue.request@, serial@, now) && issued.transaction_id@
            == issue.request.transaction_id@ && issued.serial@ == serial@ && issued.der@ == der@
            && issued.previous == previous && issued.position == 0,
    }
}

/// The comment on a certificate that is superseded.
pub open spec fn superseded_by(serial: Seq<u8>) -> Seq<char> {
    "remplacé par "@ + crate::crypto::hex_text(serial)
}

/// What is left to do for a certificate that was signed: to revoke the next of
/// those it supersedes, then to publish.
pub open spec fn follows_issued(issued: Issued, next: SubmitStep) -> bool {
    if issued.position < issued.previous@.len() {
        next matches SubmitStep::Revoke { revocation, issued: i } && i == issued
            && revocation.serial@ == issued.previous@[issued.position as int]@ && revocation.reason
            == SUPERSEDED && revocation.operator@ == "raflow:renouvellement"@
            && revocation.comment@ == superseded_by(issued.serial@)
    } else {
        next == (SubmitStep::Publish { issued })
    }
}

/// Which step follows the answer of the store to the update.
pub open spec fn follows_update(
    issued: Issued,
    updated: Result<(), StoreError>,
    next: SubmitStep,
) -> bool {
    match updated {
        Err(e) => ends_with(next, RaflowError::Store(e)),
        Ok(_) => follows_issued(issued, next),
    }
}

/// Which step follows the answer of the authority to a revocation.
pub open spec fn follows_revoke(
    issued: Issued,
    revoked: Result<(), String>,
    next: SubmitStep,
) -> bool {
    match revoked {
        Err(text) => ends_with(next, RaflowError::Ca(text)),
        Ok(_) => follows_issued(
            Issued { position: (issued.position + 1) as usize, ..issued },
            next,
        ),
    }
}

/// Which step follows the answer of the authority to the publication.
pub open spec fn follows_publish(
    issued: Issued,
    published: Result<(), String>,
    chain: Vec<Vec<u8>>,
    next: SubmitStep,
) -> bool {
    match published {
        Err(text) => ends_with(next, RaflowError::Ca(text)),
        Ok(_) => delivers(next, issued.transaction_id@, issued.der@, chain),
    }
}

/// Which step follows the answer of the store about the issued certificate.
pub open spec fn follows_fetch(
    transaction_id: String,
    fetched: Result<Certificate, StoreError>,
    chain: Vec<Vec<u8>>,
    next: SubmitStep,
) -> bool {
    match fetched {
        Err(e) => ends_with(next, RaflowError::Store(e)),
        Ok(line) => match crate::x509::certificate_of(line@.der) {
            Err(fault) => next matches SubmitStep::Done { result } && result matches Err(
                RaflowError::Der(text),
            ) && text@ == fault,
            Ok(c) => delivers(next, transaction_id@, c.encoding, chain),
        },
    }
}

impl SubmitStep {
    /// What is stored is PENDING, and what is issued was APPROVED.
    pub open spec fn wf(self) -> bool {
        match self {
            SubmitStep::Record { request, entry } => request@.state == RequestState::Pending
                && entry@ == opening_entry(request@),
            SubmitStep::Create { request } => request@.state == RequestState::Pending,
            SubmitStep::Subject { issue } => issue.request@.state == RequestState::Approved,
            SubmitStep::Active { issue, .. } => issue.request@.state == RequestState::Approved,
            SubmitStep::Sign { issue, .. } => issue.request@.state == RequestState::Approved,
            SubmitStep::Update { updated, issued } => updated@.state == RequestState::Issued
                && updated@.certificate_serial == Some(issued.serial@) && issued.position == 0,
            SubmitStep::Revoke { revocation, issued } => issued.position < issued.previous@.len(),
            _ => true,
        }
    }

    /// The answer that the step waits for.
    pub open spec fn awaits(self, answer: SubmitAnswer) -> bool {
        match self {
            SubmitStep::Profile { .. } => answer is Profile,
            SubmitStep::CheckName { .. } => answer is NameChecked,
            SubmitStep::Find { .. } => answer is Found,
            SubmitStep::Record { .. } => answer is Recorded,
            SubmitStep::Create { .. } => answer is Created,
            SubmitStep::Subject { .. } => answer is Subject,
            SubmitStep::Active { .. } => answer is Active,
            SubmitStep::Sign { .. } => answer is Signed,
            SubmitStep::Update { .. } => answer is Updated,
            SubmitStep::Revoke { .. } => answer is Revoked,
            SubmitStep::Publish { .. } => answer is Published,
            SubmitStep::Fetch { .. } => answer is Fetched,
            SubmitStep::Done { .. } => false,
        }
    }
}

/// Which step follows an answer.
pub open spec fn follows(
    flow: Flow,
    step: SubmitStep,
    answer: SubmitAnswer,
    next: SubmitStep,
) -> bool {
    match (step, answer) {
        (SubmitStep::Profile { csr_der, profile_name }, SubmitAnswer::Profile { result }) =>
            follows_profile(csr_der, profile_name, result, next),
        (SubmitStep::CheckName { candidate }, SubmitAnswer::NameChecked { result }) =>
            follows_name(candidate, result, next),
        (SubmitStep::Find { candidate }, SubmitAnswer::Found { result, now }) => follows_find(
            flow.opts.retry_after,
            candidate,
            result,
            now,
            next,
        ),
        (SubmitStep::Record { request, entry }, SubmitAnswer::Recorded { result }) =>
            follows_record(request, result, next),
        (SubmitStep::Create { request }, SubmitAnswer::Created { result }) => follows_create(
            flow.opts.retry_after,
            request,
            result,
            next,
        ),
        (SubmitStep::Subject { issue }, SubmitAnswer::Subject { result, now }) => follows_subject(
            issue,
            result,
            now,
            next,
        ),
        (SubmitStep::Active { issue, subject_dn, now }, SubmitAnswer::Active { result }) =>
            follows_active(issue, now, result, next),
        (SubmitStep::Sign { issue, previous, now }, SubmitAnswer::Signed { result }) => follows_sign(
            issue,
            previous,
            now,
            result,
            next,
        ),
        (SubmitStep::Update { updated, issued }, SubmitAnswer::Updated { result }) =>
            follows_update(issued, result, next),
        (SubmitStep::Revoke { revocation, issued }, SubmitAnswer::Revoked { result }) =>
            follows_revoke(issued, result, next),
        (SubmitStep::Publish { issued }, SubmitAnswer::Published { result, chain }) =>
            follows_publish(issued, result, chain, next),
        (SubmitStep::Fetch { transaction_id, serial }, SubmitAnswer::Fetched { result, chain }) =>
            follows_fetch(transaction_id, result, chain, next),
        _ => true,
    }
}

fn done(e: RaflowError) -> (next: SubmitStep)
    ensures
        ends_with(next, e),
        next.wf(),
{
    SubmitStep::Done { result: Err(e) }
}

fn pending(transaction_id: String, retry_after: Duration) -> (next: SubmitStep)
    ensures
        waits(next, transaction_id@, retry_after),
        next.wf(),
{
    SubmitStep::Done {
        result: Ok(
            SubmitResult {
                state: RequestState::Pending,
                transaction_id,
                retry_after: Some(retry_after),
                certificate: None,
                chain: Vec::new(),
            },
        ),
    }
}

fn delivery(transaction_id: String, der: Vec<u8>, chain: Vec<Vec<u8>>) -> (next: SubmitStep)
    ensures
        delivers(next, transaction_id@, der@, chain),
        next.wf(),
{
    SubmitStep::Done {
        result: Ok(
            SubmitResult {
                state: RequestState::Issued,
                transaction_id,
                retry_after: None,
                certificate: Some(der),
                chain,
            },
        ),
    }
}

fn after_profile(csr_der: Vec<u8>, profile_name: String, found: Result<String, String>) -> (next:
    SubmitStep)
    ensures
        follows_profile(csr_der, profile_name, found, next),
        next.wf(),
{
    let profile = match found {
        Ok(profile) => profile,
        Err(text) => return done(RaflowError::Other(text)),
    };
    match parse_and_verify_csr(csr_der.as_slice()) {
        Err(e) => done(e),
        Ok((cn, spki_der)) => {
            let fp = fingerprint(csr_der.as_slice());
            SubmitStep::CheckName {
                candidate: Candidate {
                    csr_der,
                    profile_name,
                    profile,
                    cn,
                    spki_der,
                    fingerprint: fp,
                },
            }
        },
    }
}

fn field(name: &str, value: &String) -> (r: (String, String))
    ensures
        r.0@ == name@,
        r.1@ == value@,
{
    (name.to_owned(), value.clone())
}

fn open(candidate: Candidate, now: Timestamp) -> (next: SubmitStep)
    ensures
        next matches SubmitStep::Record { request, entry } && request@ == opened(candidate, now)
            && entry@ == opening_entry(request@),
        next.wf(),
{
    let request = Request {
        transaction_id: transaction_id(candidate.csr_der.as_slice()),
        csr_fingerprint: candidate.fingerprint,
        csr_der: candidate.csr_der,
        profile: candidate.profile,
        subject_cn: candidate.cn,
        state: RequestState::Pending,
        created_at: now,
        decided_at: None,
        operator: String::new(),
        comment: String::new(),
        issued_at: None,
        certificate_serial: None,
    };
    assert(request@ =~= opened(candidate, now));
    let entry = JournalEntry {
        event: "ca.request_received".to_owned(),
        fields: vec![
            field("transaction", &request.transaction_id),
            field("profil", &request.profile),
            field("sujet_cn", &request.subject_cn),
            field("empreinte", &request.csr_fingerprint),
        ],
    };
    assert(entry@.fields =~= opening_entry(request@).fields);
    assert(entry@ =~= opening_entry(request@));
    SubmitStep::Record { request, entry }
}

fn after_find(
    retry_after: Duration,
    candidate: Candidate,
    found: Result<Request, StoreError>,
    now: Timestamp,
) -> (next: SubmitStep)
    ensures
        follows_find(retry_after, candidate, found, now, next),
        next.wf(),
{
    let r = match found {
        Ok(r) => r,
        Err(StoreError::NotFound) => return open(candidate, now),
        Err(e) => return done(RaflowError::Store(e)),
    };
    if !str_eq(r.profile.as_str(), candidate.profile_name.as_str()) {
        let mut text = "cette demande a été soumise pour le profil ".to_owned();
        text.append(debug_string(r.profile.as_str()).as_str());
        text.append(", pas ");
        text.append(debug_string(candidate.profile_name.as_str()).as_str());
        return done(RaflowError::Other(text));
    }
    match r.state {
        RequestState::Pending => pending(r.transaction_id, retry_after),
        RequestState::Rejected => done(
            RaflowError::Rejected { operator: r.operator, comment: r.comment },
        ),
        RequestState::Approved => SubmitStep::Subject {
            issue: Issue {
                request: r,
                profile: candidate.profile,
                cn: candidate.cn,
                spki_der: candidate.spki_der,
            },
        },
        RequestState::Issued => match r.certificate_serial {
            None => done(
                RaflowError::Other(
                    concat3(
                        "demande ",
                        r.transaction_id.as_str(),
                        " marquée émise sans certificat associé",
                    ),
                ),
            ),
            Some(serial) => SubmitStep::Fetch { transaction_id: r.transaction_id, serial },
        },
    }
}

fn after_active(issue: Issue, now: Timestamp, active: Result<Vec<Certificate>, StoreError>) -> (next:
    SubmitStep)
    requires
        issue.request@.state == RequestState::Approved,
    ensures
        follows_active(issue, now, active, next),
        next.wf(),
{
    let list = match active {
        Ok(list) => list,
        Err(e) => return done(RaflowError::Store(e)),
    };
    let mut previous: Vec<Serial> = Vec::new();
    let mut i: usize = 0;
    while i < list.len()
        invariant
            i <= list@.len(),
            previous@.len() == i,
            forall|k: int| 0 <= k < i ==> (#[trigger] previous@[k])@ == list@[k]@.serial,
        decreases list.len() - i,
    {
        previous.push(copy_of(list[i].serial.as_slice()));
        i += 1;
    }
    assert(crate::x509::byte_views(previous@) =~= serials_in(list@));
    SubmitStep::Sign { issue, previous, now }
}

fn after_sign(
    issue: Issue,
    previous: Vec<Serial>,
    now: Timestamp,
    signed: Result<(Serial, Vec<u8>), String>,
) -> (next: SubmitStep)
    ensures
        follows_sign(issue, previous, now, signed, next),
        next.wf(),
{
    let (serial, der) = match signed {
        Ok(signed) => signed,
        Err(text) => return done(RaflowError::Ca(text)),
    };
    let transaction_id = issue.request.transaction_id.clone();
    let mut updated = issue.request;
    updated.state = RequestState::Issued;
    updated.issued_at = Some(now);
    updated.certificate_serial = Some(copy_of(serial.as_slice()));
    assert(updated@ =~= issued_request(issue.request@, serial@, now));
    SubmitStep::Update {
        updated,
        issued: Issued { transaction_id, serial, der, previous, position: 0 },
    }
}

fn next_revocation(issued: Issued) -> (next: SubmitStep)
    ensures
        follows_issued(issued, next),
        next.wf(),
{
    if issued.position < issued.previous.len() {
        let revocation = Revocation {
            serial: copy_of(issued.previous[issued.position].as_slice()),
            reason: SUPERSEDED,
            operator: "raflow:renouvellement".to_owned(),
            comment: concat2("remplacé par ", hex_encode(issued.serial.as_slice()).as_str()),
        };
        SubmitStep::Revoke { revocation, issued }
    } else {
        SubmitStep::Publish { issued }
    }
}

fn after_fetch(
    transaction_id: String,
    fetched: Result<Certificate, StoreError>,
    chain: Vec<Vec<u8>>,
) -> (next: SubmitStep)
    ensures
        follows_fetch(transaction_id, fetched, chain, next),
        next.wf(),
{
    match fetched {
        Err(e) => done(RaflowError::Store(e)),
        Ok(line) => match crate::x509::read_certificate(line.der.as_slice()) {
            Err(fault) => done(RaflowError::Der(fault)),
            Ok(c) => delivery(transaction_id, c.encoding, chain),
        },
    }
}

impl Flow {
    /// Receives submissions under a secret, which must not be empty: an
    /// authority that serves whoever asks is worth nothing. A delay of zero is
    /// five seconds.
    pub fn new(opts: Options) -> (r: Result<Flow, RaflowError>)
        ensures
            match r {
                Ok(flow) => {
                    &&& opts.hmac_secret@.len() > 0
                    &&& flow.opts.hmac_secret == opts.hmac_secret
                    &&& flow.opts.retry_after == (if opts.retry_after.nanos == 0 {
                        Duration { nanos: 5_000_000_000 }
                    } else {
                        opts.retry_after
                    })
                },
                Err(e) => opts.hmac_secret@.len() == 0 && is_refusal(
                    e,
                    "secret HMAC d'enrôlement non configuré (enrôlement anonyme refusé)"@,
                ),
            },
    {
        if opts.hmac_secret.as_str().is_empty() {
            return Err(
                RaflowError::Other(
                    "secret HMAC d'enrôlement non configuré (enrôlement anonyme refusé)".to_owned(),
                ),
            );
        }
        let retry_after = if opts.retry_after.nanos == 0 {
            Duration::seconds(5)
        } else {
            opts.retry_after
        };
        Ok(
            Flow {
                decider: Decider::new(),
                opts: Options { hmac_secret: opts.hmac_secret, retry_after },
            },
        )
    }

    /// Carries the decisions on what is submitted.
    pub fn decider(&self) -> (r: &Decider)
        ensures
            r == self.decider,
    {
        &self.decider
    }

    /// Receives a certification request, or takes up the enrolment that it
    /// opened. This is also where an approved request becomes a certificate:
    /// here, where the authority's key is, and not where it was approved.
    pub fn submit(&self, csr_der: &[u8], profile_name: &str, signature_hex: &str) -> (step:
        SubmitStep)
        ensures
            step.wf(),
            if authentic(csr_der@, self.opts.hmac_secret@, signature_hex@) {
                step matches SubmitStep::Profile { csr_der: c, profile_name: p } && c@ == csr_der@
                    && p@ == profile_name@
            } else {
                ends_with(step, RaflowError::Unauthenticated)
            },
    {
        match verify_hmac(csr_der, self.opts.hmac_secret.as_str(), signature_hex) {
            Err(e) => done(e),
            Ok(_) => SubmitStep::Profile {
                csr_der: copy_of(csr_der),
                profile_name: profile_name.to_owned(),
            },
        }
    }

    /// The step that follows an answer.
    pub fn advance(&self, step: SubmitStep, answer: SubmitAnswer) -> (next: SubmitStep)
        requires
            step.wf(),
            step.awaits(answer),
        ensures
            next.wf(),
            follows(*self, step, answer, next),
    {
        match (step, answer) {
            (SubmitStep::Profile { csr_der, profile_name }, SubmitAnswer::Profile { result }) =>
                after_profile(csr_der, profile_name, result),
            (SubmitStep::CheckName { candidate }, SubmitAnswer::NameChecked { result }) => match result {
                Err(text) => done(RaflowError::Other(text)),
                Ok(_) => SubmitStep::Find { candidate },
            },
            (SubmitStep::Find { candidate }, SubmitAnswer::Found { result, now }) => after_find(
                self.opts.retry_after,
                candidate,
                result,
                now,
            ),
            (SubmitStep::Record { request, entry }, SubmitAnswer::Recorded { result }) => match result {
                Err(text) => done(journal_refusal(text.as_str())),
                Ok(_) => SubmitStep::Create { request },
            },
            (SubmitStep::Create { request }, SubmitAnswer::Created { result }) => match result {
                Err(e) => done(RaflowError::Store(e)),
                Ok(_) => pending(request.transaction_id, self.opts.retry_after),
            },
            (SubmitStep::Subject { issue }, SubmitAnswer::Subject { result, now }) => match result {
                Err(text) => done(RaflowError::Ca(text)),
                Ok(subject_dn) => SubmitStep::Active { issue, subject_dn, now },
            },
            (SubmitStep::Active { issue, subject_dn, now }, SubmitAnswer::Active { result }) =>
                after_active(issue, now, result),
            (SubmitStep::Sign { issue, previous, now }, SubmitAnswer::Signed { result }) =>
                after_sign(issue, previous, now, result),
            (SubmitStep::Update { updated, issued }, SubmitAnswer::Updated { result }) => match result {
                Err(e) => done(RaflowError::Store(e)),
                Ok(_) => next_revocation(issued),
            },
            (SubmitStep::Revoke { revocation, issued }, SubmitAnswer::Revoked { result }) => match result {
                Err(text) => done(RaflowError::Ca(text)),
                Ok(_) => {
                    let mut rest = issued;
                    assert(rest.position < rest.previous.len());
                    rest.position = rest.position + 1;
                    next_revocation(rest)
                },
            },
            (SubmitStep::Publish { issued }, SubmitAnswer::Published { result, chain }) => match result {
                Err(text) => done(RaflowError::Ca(text)),
                Ok(_) => delivery(issued.transaction_id, issued.der, chain),
            },
            (
                SubmitStep::Fetch { transaction_id, serial },
                SubmitAnswer::Fetched { result, chain },
            ) => after_fetch(transaction_id, result, chain),
            (step, _) => step,
        }
    }
}

} // verus!
