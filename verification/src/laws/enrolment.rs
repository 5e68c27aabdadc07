//! What an enrolment promises, step by step: what is asked of the authority, the
//! store and the journal, and what is answered for each reply.
use vstd::prelude::*;

use crate::castore::{
    Certificate, CertificateStatus, CertificateView, Request, RequestState, RequestView,
    StoreError,
};
use crate::clock::{Duration, Timestamp};
use crate::crypto::{hex_text, hmac_code, rsa_key_size, rsa_signature_fault, sha256_digest};
use crate::decision::{
    begins, decided, decision_effect, decision_entry, follows_load, follows_write, DecideStep,
    Decision, Verdict,
};
use crate::enrolment::{answers_again, issued_store, opening, submitted, Surroundings};
use crate::memory::StoreView;
use crate::raflow::{
    authentic, common_name_of, csr_fault, fingerprint_of, request_fault, RaflowError,
};
use crate::submission::{
    follows, Candidate, Flow, Issue, Issued, SubmitAnswer, SubmitStep,
};
use crate::x509::CertificationRequestView;

verus! {

/// The submission is over, with an error that satisfies a condition.
pub open spec fn refused(step: SubmitStep, cause: spec_fn(RaflowError) -> bool) -> bool {
    step matches SubmitStep::Done { result } && (result matches Err(e) && cause(e))
}

/// Two lists of byte strings are the same, one by one.
pub open spec fn same_bytes(a: Seq<Vec<u8>>, b: Seq<Vec<u8>>) -> bool {
    &&& a.len() == b.len()
    &&& forall|i: int| 0 <= i < a.len() ==> (#[trigger] a[i])@ == b[i]@
}

/// Once the revocation list is published, the certificate that was signed is
/// handed over, under its transaction, with the whole chain that the authority
/// gave: every certificate of it, in its order.
pub proof fn publication_delivers_certificate_and_chain(
    flow: Flow,
    issued: Issued,
    chain: Vec<Vec<u8>>,
    next: SubmitStep,
)
    requires
        follows(
            flow,
            SubmitStep::Publish { issued },
            SubmitAnswer::Published { result: Ok(()), chain },
            next,
        ),
    ensures
        next matches SubmitStep::Done { result } && (result matches Ok(r) && {
            &&& r.state == RequestState::Issued
            &&& r.transaction_id@ == issued.transaction_id@
            &&& r.retry_after is None
            &&& r.certificate matches Some(der) && der@ == issued.der@
            &&& same_bytes(r.chain@, chain@)
        }),
{
}

/// A publication that fails is reported with what the authority said, and no
/// certificate is handed over.
pub proof fn failed_publication_delivers_nothing(
    flow: Flow,
    issued: Issued,
    text: String,
    chain: Vec<Vec<u8>>,
    next: SubmitStep,
)
    requires
        follows(
            flow,
            SubmitStep::Publish { issued },
            SubmitAnswer::Published { result: Err(text), chain },
            next,
        ),
    ensures
        refused(next, |e: RaflowError| e matches RaflowError::Ca(t) && t@ == text@),
{
}

/// A certificate that was issued before is read from the store and handed over
/// again, with the whole chain that the authority gave.
pub proof fn fetch_delivers_certificate_and_chain(
    flow: Flow,
    transaction_id: String,
    serial: Vec<u8>,
    line: Certificate,
    chain: Vec<Vec<u8>>,
    next: SubmitStep,
)
    requires
        follows(
            flow,
            SubmitStep::Fetch { transaction_id, serial },
            SubmitAnswer::Fetched { result: Ok(line), chain },
            next,
        ),
    ensures
        crate::x509::certificate_of(line.der@) matches Ok(c) ==> (
        next matches SubmitStep::Done { result } && (result matches Ok(r) && {
            &&& r.state == RequestState::Issued
            &&& r.transaction_id@ == transaction_id@
            &&& r.retry_after is None
            &&& r.certificate matches Some(der) && der@ == c.encoding
            &&& same_bytes(r.chain@, chain@)
        })),
        crate::x509::certificate_of(line.der@) matches Err(fault) ==> refused(
            next,
            |e: RaflowError| e matches RaflowError::Der(t) && t@ == fault,
        ),
{
}

/// Where the store does not find the certificate, what it said is reported.
pub proof fn failed_fetch_delivers_nothing(
    flow: Flow,
    transaction_id: String,
    serial: Vec<u8>,
    e: StoreError,
    chain: Vec<Vec<u8>>,
    next: SubmitStep,
)
    requires
        follows(
            flow,
            SubmitStep::Fetch { transaction_id, serial },
            SubmitAnswer::Fetched { result: Err(e), chain },
            next,
        ),
    ensures
        refused(next, |f: RaflowError| f == RaflowError::Store(e)),
{
}

/// Once the authority has signed, the request is to be replaced by itself,
/// ISSUED now under the number of the certificate, and what was signed is
/// remembered as it is, with the numbers of those that it supersedes.
pub proof fn signature_is_recorded_and_remembered(
    flow: Flow,
    issue: Issue,
    previous: Vec<Vec<u8>>,
    now: Timestamp,
    serial: Vec<u8>,
    der: Vec<u8>,
    next: SubmitStep,
)
    requires
        follows(
            flow,
            SubmitStep::Sign { issue, previous, now },
            SubmitAnswer::Signed { result: Ok((serial, der)) },
            next,
        ),
    ensures
        next matches SubmitStep::Update { updated, issued } && {
            &&& updated.state == RequestState::Issued
            &&& updated.issued_at == Some(now)
            &&& updated.certificate_serial matches Some(s) && s@ == serial@
            &&& updated.transaction_id@ == issue.request.transaction_id@
            &&& updated.csr_fingerprint@ == issue.request.csr_fingerprint@
            &&& updated.csr_der@ == issue.request.csr_der@
            &&& updated.profile@ == issue.request.profile@
            &&& updated.subject_cn@ == issue.request.subject_cn@
            &&& updated.created_at == issue.request.created_at
            &&& updated.decided_at == issue.request.decided_at
            &&& updated.operator@ == issue.request.operator@
            &&& updated.comment@ == issue.request.comment@
            &&& issued.transaction_id@ == issue.request.transaction_id@
            &&& issued.serial@ == serial@
            &&& issued.der@ == der@
            &&& same_bytes(issued.previous@, previous@)
            &&& issued.position == 0
        },
{
    if let SubmitStep::Update { updated, issued } = next {
        let view = updated@;
        assert(view.state == RequestState::Issued);
        assert(view.certificate_serial == Some(serial@));
        assert(view.operator == issue.request@.operator);
    }
}

/// Where the authority does not sign, what it said is reported.
pub proof fn failed_signature_is_reported(
    flow: Flow,
    issue: Issue,
    previous: Vec<Vec<u8>>,
    now: Timestamp,
    text: String,
    next: SubmitStep,
)
    requires
        follows(
            flow,
            SubmitStep::Sign { issue, previous, now },
            SubmitAnswer::Signed { result: Err(text) },
            next,
        ),
    ensures
        refused(next, |e: RaflowError| e matches RaflowError::Ca(t) && t@ == text@),
{
}

/// The certificates that are superseded are revoked one after the other, each
/// with reason 4 (superseded) and a comment that names the new number; the list
/// is published once none is left.
pub open spec fn goes_on(issued: Issued, position: int, next: SubmitStep) -> bool {
    if position < issued.previous@.len() {
        next matches SubmitStep::Revoke { revocation, issued: i } && {
            &&& revocation.serial@ == issued.previous@[position]@
            &&& revocation.reason == 4
            &&& revocation.operator@ == "raflow:renouvellement"@
            &&& revocation.comment@ == "remplacé par "@ + hex_text(issued.serial@)
            &&& i.position == position
            &&& i.der@ == issued.der@
            &&& i.transaction_id@ == issued.transaction_id@
            &&& i.serial@ == issued.serial@
            &&& same_bytes(i.previous@, issued.previous@)
        }
    } else {
        next matches SubmitStep::Publish { issued: i } && {
            &&& i.der@ == issued.der@
            &&& i.transaction_id@ == issued.transaction_id@
            &&& i.serial@ == issued.serial@
        }
    }
}

/// Every certificate that is superseded is revoked, in turn, before the list is
/// published; what fails is reported.
pub proof fn superseded_are_revoked_in_turn(
    flow: Flow,
    updated: Request,
    issued: Issued,
    revocation: crate::submission::Revocation,
    written: Result<(), StoreError>,
    revoked: Result<(), String>,
    after_update: SubmitStep,
    after_revoke: SubmitStep,
)
    requires
        issued.position < usize::MAX,
        follows(
            flow,
            SubmitStep::Update { updated, issued },
            SubmitAnswer::Updated { result: written },
            after_update,
        ),
        follows(
            flow,
            SubmitStep::Revoke { revocation, issued },
            SubmitAnswer::Revoked { result: revoked },
            after_revoke,
        ),
    ensures
        written is Ok ==> goes_on(issued, issued.position as int, after_update),
        written matches Err(e) ==> refused(
            after_update,
            |f: RaflowError| f == RaflowError::Store(e),
        ),
        revoked is Ok ==> goes_on(issued, issued.position + 1, after_revoke),
        revoked matches Err(text) ==> refused(
            after_revoke,
            |f: RaflowError| f matches RaflowError::Ca(t) && t@ == text@,
        ),
{
}

/// The active certificates of the subject are asked for before the authority
/// signs, and their numbers are those that are superseded, all of them and in
/// their order.
pub proof fn all_active_are_superseded(
    flow: Flow,
    issue: Issue,
    subject: Result<String, String>,
    subject_dn: String,
    now: Timestamp,
    active: Result<Vec<Certificate>, StoreError>,
    after_subject: SubmitStep,
    after_active: SubmitStep,
)
    requires
        follows(
            flow,
            SubmitStep::Subject { issue },
            SubmitAnswer::Subject { result: subject, now },
            after_subject,
        ),
        follows(
            flow,
            SubmitStep::Active { issue, subject_dn, now },
            SubmitAnswer::Active { result: active },
            after_active,
        ),
    ensures
        subject matches Ok(dn) ==> (after_subject matches SubmitStep::Active {
            issue: i,
            subject_dn: d,
            now: t,
        } && i == issue && d@ == dn@ && t == now),
        subject matches Err(text) ==> refused(
            after_subject,
            |e: RaflowError| e matches RaflowError::Ca(t) && t@ == text@,
        ),
        active matches Ok(list) ==> (after_active matches SubmitStep::Sign {
            issue: i,
            previous,
            now: t,
        } && i == issue && t == now && previous@.len() == list@.len() && forall|k: int|
            0 <= k < list@.len() ==> (#[trigger] previous@[k])@ == list@[k].serial@),
        active matches Err(e) ==> refused(
            after_active,
            |f: RaflowError| f == RaflowError::Store(e),
        ),
{
    if let Ok(list) = active {
        if let SubmitStep::Sign { issue: i, previous, now: t } = after_active {
            let views = crate::x509::byte_views(previous@);
            let serials = crate::submission::serials_in(list@);
            assert(views.len() == serials.len());
            assert forall|k: int| 0 <= k < list@.len() implies (#[trigger] previous@[k])@
                == list@[k].serial@ by {
                assert(views[k] == serials[k]);
            }
        }
    }
}

/// A new certification request is recorded in the journal, then created:
/// PENDING, under its fingerprint and the first half of it, with the profile and
/// the common name, and with nothing decided.
pub proof fn new_request_is_recorded_first(
    flow: Flow,
    candidate: Candidate,
    now: Timestamp,
    next: SubmitStep,
)
    requires
        follows(
            flow,
            SubmitStep::Find { candidate },
            SubmitAnswer::Found { result: Err(StoreError::NotFound), now },
            next,
        ),
    ensures
        next matches SubmitStep::Record { request, entry } && {
            &&& request.transaction_id@ == fingerprint_of(candidate.csr_der@).take(32)
            &&& request.csr_fingerprint@ == candidate.fingerprint@
            &&& request.csr_der@ == candidate.csr_der@
            &&& request.profile@ == candidate.profile@
            &&& request.subject_cn@ == candidate.cn@
            &&& request.state == RequestState::Pending
            &&& request.created_at == now
            &&& request.decided_at is None
            &&& request.operator@.len() == 0
            &&& request.comment@.len() == 0
            &&& request.issued_at is None
            &&& request.certificate_serial is None
            &&& entry@.event == "ca.request_received"@
            &&& entry@.fields.len() == 4
            &&& entry@.fields[0] == ("transaction"@, request.transaction_id@)
            &&& entry@.fields[1] == ("profil"@, request.profile@)
            &&& entry@.fields[2] == ("sujet_cn"@, request.subject_cn@)
            &&& entry@.fields[3] == ("empreinte"@, request.csr_fingerprint@)
        },
{
    if let SubmitStep::Record { request, entry } = next {
        assert(request@.certificate_serial is None);
        assert(request@.operator.len() == 0);
        assert(request@.comment.len() == 0);
    }
}

/// What the journal does not take is not created, and what it takes is created
/// as it was recorded; what the store refuses is reported, and what it creates
/// waits for a decision.
pub proof fn recorded_request_is_created(
    flow: Flow,
    request: Request,
    entry: crate::decision::JournalEntry,
    recorded: Result<(), String>,
    created: Result<(), StoreError>,
    after_record: SubmitStep,
    after_create: SubmitStep,
)
    requires
        follows(
            flow,
            SubmitStep::Record { request, entry },
            SubmitAnswer::Recorded { result: recorded },
            after_record,
        ),
        follows(
            flow,
            SubmitStep::Create { request },
            SubmitAnswer::Created { result: created },
            after_create,
        ),
    ensures
        recorded is Ok ==> after_record == (SubmitStep::Create { request }),
        recorded matches Err(text) ==> refused(
            after_record,
            |e: RaflowError| e matches RaflowError::Other(t) && t@ == "journal : "@ + text@,
        ),
        created matches Err(e) ==> refused(
            after_create,
            |f: RaflowError| f == RaflowError::Store(e),
        ),
        created is Ok ==> waiting(after_create, request.transaction_id@, flow.opts.retry_after),
{
}

/// The submission is over: the enrolment waits for a decision, and whoever asks
/// should ask again after the delay.
pub open spec fn waiting(step: SubmitStep, transaction_id: Seq<char>, delay: Duration) -> bool {
    step matches SubmitStep::Done { result } && (result matches Ok(r) && {
        &&& r.state == RequestState::Pending
        &&& r.transaction_id@ == transaction_id
        &&& r.retry_after == Some(delay)
        &&& r.certificate is None
        &&& r.chain@.len() == 0
    })
}

/// An enrolment that exists is taken up where it stands: it waits, was rejected
/// by somebody for a reason, is to be issued with the key that was presented, or
/// was issued under a number. It must have been opened for the profile that is
/// asked for.
pub proof fn existing_request_is_taken_up(
    flow: Flow,
    candidate: Candidate,
    found: Request,
    now: Timestamp,
    next: SubmitStep,
)
    requires
        follows(
            flow,
            SubmitStep::Find { candidate },
            SubmitAnswer::Found { result: Ok(found), now },
            next,
        ),
    ensures
        found.profile@ != candidate.profile_name@ ==> refused(
            next,
            |e: RaflowError|
                e matches RaflowError::Other(t) && t@
                    == "cette demande a été soumise pour le profil "@ + crate::text::debug_text(
                    found.profile@,
                ) + ", pas "@ + crate::text::debug_text(candidate.profile_name@),
        ),
        found.profile@ == candidate.profile_name@ ==> match found.state {
            RequestState::Pending => waiting(next, found.transaction_id@, flow.opts.retry_after),
            RequestState::Rejected => refused(
                next,
                |e: RaflowError|
                    e matches RaflowError::Rejected { operator, comment } && operator@
                        == found.operator@ && comment@ == found.comment@,
            ),
            RequestState::Approved => next matches SubmitStep::Subject { issue } && issue.request
                == found && issue.profile@ == candidate.profile@ && issue.cn@ == candidate.cn@
                && issue.spki_der@ == candidate.spki_der@,
            RequestState::Issued => match found.certificate_serial {
                Some(number) => next matches SubmitStep::Fetch { transaction_id, serial }
                    && transaction_id@ == found.transaction_id@ && serial@ == number@,
                None => refused(
                    next,
                    |e: RaflowError|
                        e matches RaflowError::Other(t) && t@ == "demande "@
                            + found.transaction_id@ + " marquée émise sans certificat associé"@,
                ),
            },
        },
{
}

/// A store that fails is reported, and opens nothing.
pub proof fn failed_search_opens_nothing(
    flow: Flow,
    candidate: Candidate,
    e: StoreError,
    now: Timestamp,
    next: SubmitStep,
)
    requires
        !(e is NotFound),
        follows(
            flow,
            SubmitStep::Find { candidate },
            SubmitAnswer::Found { result: Err(e), now },
            next,
        ),
    ensures
        refused(next, |f: RaflowError| f == RaflowError::Store(e)),
{
}

/// The certification request must be readable, have a key of at least 3072 bits,
/// be signed by that key, and name somebody; then the authority is asked about
/// the name, for the profile that it gave.
pub proof fn request_is_verified_before_the_name(
    flow: Flow,
    csr_der: Vec<u8>,
    profile_name: String,
    profile: String,
    next: SubmitStep,
)
    requires
        follows(
            flow,
            SubmitStep::Profile { csr_der, profile_name },
            SubmitAnswer::Profile { result: Ok(profile) },
            next,
        ),
    ensures
        crate::x509::request_of(csr_der@) matches Err(fault) ==> refused(
            next,
            |e: RaflowError| e matches RaflowError::Der(t) && t@ == fault,
        ),
        crate::x509::request_of(csr_der@) matches Ok(csr) ==> {
            &&& acceptable(csr) ==> (next matches SubmitStep::CheckName { candidate } && {
                &&& candidate.csr_der@ == csr_der@
                &&& candidate.profile_name@ == profile_name@
                &&& candidate.profile@ == profile@
                &&& candidate.cn@ == common_name_of(csr.subject)
                &&& candidate.spki_der@ == csr.public_key_info
                &&& candidate.fingerprint@ == hex_text(sha256_digest(csr_der@))
            })
            &&& !acceptable(csr) ==> refused(next, |e: RaflowError| e is Other)
        },
{
}

/// A profile that the authority does not know, and a name that it does not
/// admit, are refused with what it said.
pub proof fn authority_admits_profile_and_name(
    flow: Flow,
    csr_der: Vec<u8>,
    profile_name: String,
    text: String,
    candidate: Candidate,
    checked: Result<(), String>,
    after_profile: SubmitStep,
    after_name: SubmitStep,
)
    requires
        follows(
            flow,
            SubmitStep::Profile { csr_der, profile_name },
            SubmitAnswer::Profile { result: Err(text) },
            after_profile,
        ),
        follows(
            flow,
            SubmitStep::CheckName { candidate },
            SubmitAnswer::NameChecked { result: checked },
            after_name,
        ),
    ensures
        refused(after_profile, |e: RaflowError| e matches RaflowError::Other(t) && t@ == text@),
        checked is Ok ==> after_name == (SubmitStep::Find { candidate }),
        checked matches Err(said) ==> refused(
            after_name,
            |e: RaflowError| e matches RaflowError::Other(t) && t@ == said@,
        ),
{
}

/// A certification request that is accepted: a readable RSA key of at least 3072
/// bits, whose own signature of the request holds, and a common name.
pub open spec fn acceptable(c: CertificationRequestView) -> bool {
    &&& rsa_key_size(c.public_key_info) matches Ok(bits) && bits >= 3072
    &&& rsa_signature_fault(c.public_key_info, sha256_digest(c.info), c.signature) is None
    &&& common_name_of(c.subject).len() > 0
}

/// A certification request is accepted exactly where its key is long enough, its
/// signature its own and its name given; the first of these that fails is said.
pub proof fn request_is_accepted_or_told_why(c: CertificationRequestView)
    ensures
        request_fault(c) is None <==> acceptable(c),
        rsa_key_size(c.public_key_info) matches Err(text) ==> request_fault(c) == Some(
            "clé publique de la demande illisible: "@ + text,
        ),
        rsa_key_size(c.public_key_info) matches Ok(bits) ==> {
            let own = rsa_signature_fault(
                c.public_key_info,
                sha256_digest(c.info),
                c.signature,
            ) is None;
            &&& bits < 3072 ==> request_fault(c) == Some(
                "clé RSA de "@ + crate::text::decimal(bits)
                    + " bits: ETSI TS 119 312 impose au moins "@ + crate::text::decimal(3072)
                    + " bits"@,
            )
            &&& bits >= 3072 && !own ==> request_fault(c) == Some(
                "la demande n'est pas signée par la clé qu'elle présente"@,
            )
            &&& bits >= 3072 && own && common_name_of(c.subject).len() == 0 ==> request_fault(c)
                == Some("la demande ne porte pas de nom courant (CN)"@)
        },
{
}

/// A shorter key than what is accepted is refused, whatever else holds.
pub proof fn short_key_is_refused(bits: nat, own: bool, cn: Seq<char>)
    ensures
        csr_fault(Ok(bits), own, cn) is None <==> bits >= 3072 && own && cn.len() > 0,
        forall|text: Seq<char>| #[trigger] csr_fault(Err(text), own, cn) is Some,
{
}

/// The common name is the value of the first attribute 2.5.4.3, and empty where
/// there is none.
pub proof fn common_name_is_the_first(
    name_der: Seq<u8>,
    attributes: Seq<(Seq<u8>, Seq<u8>)>,
    k: int,
)
    requires
        crate::x509::name_attributes_of(name_der) == Some(attributes),
    ensures
        0 <= k < attributes.len() && attributes[k].0 == seq![0x55u8, 4, 3] && (forall|j: int|
            0 <= j < k ==> (#[trigger] attributes[j]).0 != seq![0x55u8, 4, 3]) ==> common_name_of(
            name_der,
        ) == crate::text::lossy_text(attributes[k].1),
        (forall|j: int|
            0 <= j < attributes.len() ==> (#[trigger] attributes[j]).0 != seq![0x55u8, 4, 3])
            ==> common_name_of(name_der).len() == 0,
{
    crate::identifiers::common_name_is_known();
    first_attribute_is_found(attributes, seq![0x55u8, 4, 3], k);
}

proof fn first_attribute_is_found(attributes: Seq<(Seq<u8>, Seq<u8>)>, oid: Seq<u8>, k: int)
    ensures
        0 <= k < attributes.len() && attributes[k].0 == oid && (forall|j: int|
            0 <= j < k ==> (#[trigger] attributes[j]).0 != oid)
            ==> crate::raflow::first_attribute(attributes, oid) == Some(attributes[k].1),
        (forall|j: int| 0 <= j < attributes.len() ==> (#[trigger] attributes[j]).0 != oid)
            ==> crate::raflow::first_attribute(attributes, oid) is None,
    decreases attributes.len(),
{
    if attributes.len() > 0 {
        let rest = attributes.drop_first();
        first_attribute_is_found(rest, oid, k - 1);
        assert forall|j: int| 0 <= j < rest.len() implies #[trigger] rest[j] == attributes[j
            + 1] by {}
        if k > 0 && k < attributes.len() {
            assert(rest[k - 1] == attributes[k]);
        }
    }
}

/// A name that cannot be read has no common name.
pub proof fn unreadable_name_is_empty(name_der: Seq<u8>)
    requires
        crate::x509::name_attributes_of(name_der) is None,
    ensures
        common_name_of(name_der).len() == 0,
{
}

/// The fingerprint is the SHA-256 digest in hexadecimal.
pub proof fn fingerprint_is_the_digest(csr_der: Seq<u8>)
    ensures
        fingerprint_of(csr_der) == hex_text(sha256_digest(csr_der)),
{
}

/// The signature of a submission is the HMAC-SHA256 code of the certification
/// request under the secret, in hexadecimal: no other bytes are accepted, nor
/// what is no hexadecimal.
pub proof fn only_the_code_is_accepted(
    csr_der: Seq<u8>,
    secret: Seq<char>,
    code: Seq<u8>,
    text: Seq<char>,
)
    ensures
        authentic(csr_der, secret, hex_text(code)) <==> code == hmac_code(
            vstd::utf8::encode_utf8(secret),
            csr_der,
        ),
        text.len() % 2 == 1 ==> !authentic(csr_der, secret, text),
        authentic(csr_der, secret, text) ==> text.len() == 2 * hmac_code(
            vstd::utf8::encode_utf8(secret),
            csr_der,
        ).len(),
{
    crate::crypto::hex_round_trip(code);
}

/// Hexadecimal is two digits for each byte, the high half first; digits of
/// either case are read alike, and nothing else is.
pub proof fn hexadecimal_is_two_digits_a_byte(bytes: Seq<u8>, i: int, c: char)
    ensures
        hex_text(bytes).len() == 2 * bytes.len(),
        0 <= i < bytes.len() ==> hex_text(bytes)[2 * i] == "0123456789abcdef"@[bytes[i] as int
            / 16] && hex_text(bytes)[2 * i + 1] == "0123456789abcdef"@[bytes[i] as int % 16],
        '0' <= c <= '9' ==> crate::crypto::hex_value(c) == Some(c as int - '0' as int),
        'a' <= c <= 'f' ==> crate::crypto::hex_value(c) == Some(c as int - 'a' as int + 10),
        'A' <= c <= 'F' ==> crate::crypto::hex_value(c) == Some(c as int - 'A' as int + 10),
        !('0' <= c <= '9') && !('a' <= c <= 'f') && !('A' <= c <= 'F') ==> crate::crypto::hex_value(
            c,
        ) is None,
{
    reveal_strlit("0123456789abcdef");
    if 0 <= i < bytes.len() {
        let high = bytes[i] as int / 16;
        let low = bytes[i] as int % 16;
        assert(0 <= high < 16 && 0 <= low < 16);
        assert((2 * i) / 2 == i && (2 * i) % 2 == 0);
        assert((2 * i + 1) / 2 == i && (2 * i + 1) % 2 == 1);
        sixteen_digits(high);
        sixteen_digits(low);
    }
}

proof fn sixteen_digits(v: int)
    requires
        0 <= v < 16,
    ensures
        crate::crypto::hex_digit(v) == "0123456789abcdef"@[v],
{
    reveal_strlit("0123456789abcdef");
    assert(v == 0 || v == 1 || v == 2 || v == 3 || v == 4 || v == 5 || v == 6 || v == 7 || v == 8
        || v == 9 || v == 10 || v == 11 || v == 12 || v == 13 || v == 14 || v == 15);
}

/// A decision that names its operator begins with the load of the request; one
/// that names nobody is refused.
pub proof fn decision_needs_an_operator(
    step: DecideStep,
    transaction_id: Seq<char>,
    operator: Seq<char>,
    comment: Seq<char>,
    verdict: Verdict,
)
    requires
        begins(step, transaction_id, operator, comment, verdict),
    ensures
        operator.len() == 0 ==> (step matches DecideStep::Done { result } && (result matches Err(
            RaflowError::Other(t),
        ) && t@ == "la décision exige l'identité de l'opérateur qui la prend"@)),
        operator.len() > 0 ==> (step matches DecideStep::Load { decision } && {
            &&& decision.transaction_id@ == transaction_id
            &&& decision.operator@ == operator
            &&& decision.comment@ == comment
            &&& decision.verdict == verdict
        }),
{
}

/// To approve leads to APPROVED and to reject to REJECTED, under the operator's
/// name, with the comment and the time; all else of the request stays.
pub proof fn verdict_decides_the_state(
    r: RequestView,
    operator: Seq<char>,
    comment: Seq<char>,
    now: Timestamp,
    verdict: Verdict,
)
    ensures
        ({
            let d = decided(r, verdict, operator, comment, now);
            &&& verdict is Approve ==> d.state == RequestState::Approved
            &&& verdict is Reject ==> d.state == RequestState::Rejected
            &&& d.operator == operator
            &&& d.comment == comment
            &&& d.decided_at == Some(now)
            &&& d.transaction_id == r.transaction_id
            &&& d.csr_fingerprint == r.csr_fingerprint
            &&& d.csr_der == r.csr_der
            &&& d.profile == r.profile
            &&& d.subject_cn == r.subject_cn
            &&& d.created_at == r.created_at
            &&& d.issued_at == r.issued_at
            &&& d.certificate_serial == r.certificate_serial
        }),
{
}

/// The journal is told of every decision: which one, on which request, for
/// which profile and name, by whom and with which comment.
pub proof fn decision_is_recorded_in_full(verdict: Verdict, r: RequestView)
    ensures
        ({
            let e = decision_entry(verdict, r);
            &&& verdict is Approve ==> e.event == "ca.request_approved"@
            &&& verdict is Reject ==> e.event == "ca.request_rejected"@
            &&& e.fields.len() == 5
            &&& e.fields[0] == ("transaction"@, r.transaction_id)
            &&& e.fields[1] == ("profil"@, r.profile)
            &&& e.fields[2] == ("sujet_cn"@, r.subject_cn)
            &&& e.fields[3] == ("operateur"@, r.operator)
            &&& e.fields[4] == ("commentaire"@, r.comment)
        }),
{
}

/// Only what is PENDING is decided: what is unknown is not found, and what is in
/// another state is reported with that state.
pub proof fn only_pending_is_decided(
    decision: Decision,
    loaded: Result<Request, StoreError>,
    now: Timestamp,
    next: DecideStep,
)
    requires
        follows_load(decision, loaded, now, next),
    ensures
        loaded matches Err(StoreError::NotFound) ==> (next matches DecideStep::Done { result }
            && result == Err::<Request, RaflowError>(RaflowError::NotFound)),
        loaded matches Ok(r) ==> {
            &&& next is Write <==> r.state == RequestState::Pending
            &&& r.state == RequestState::Approved ==> not_pending(next, "APPROVED"@)
            &&& r.state == RequestState::Rejected ==> not_pending(next, "REJECTED"@)
            &&& r.state == RequestState::Issued ==> not_pending(next, "ISSUED"@)
            &&& next matches DecideStep::Write { verdict, updated } ==> {
                &&& verdict == decision.verdict
                &&& updated.transaction_id@ == r.transaction_id@
                &&& updated.operator@ == decision.operator@
                &&& updated.comment@ == decision.comment@
                &&& updated.decided_at == Some(now)
                &&& verdict is Approve ==> updated.state == RequestState::Approved
                &&& verdict is Reject ==> updated.state == RequestState::Rejected
                &&& updated.csr_der@ == r.csr_der@
                &&& updated.profile@ == r.profile@
                &&& updated.subject_cn@ == r.subject_cn@
            }
        },
{
    if let Ok(r) = loaded {
        if let DecideStep::Write { verdict, updated } = next {
            assert(updated@.transaction_id == r@.transaction_id);
        }
    }
}

/// The decision is over: the request is in a state that is no longer PENDING.
pub open spec fn not_pending(step: DecideStep, word: Seq<char>) -> bool {
    step matches DecideStep::Done { result } && (result matches Err(RaflowError::NotPending(w))
        && w@ == word)
}

/// A decision that another one overtook is reported, and not recorded; one that
/// was written is recorded as it was written.
pub proof fn written_decision_is_recorded(
    verdict: Verdict,
    updated: Request,
    written: Result<(), StoreError>,
    next: DecideStep,
)
    requires
        follows_write(verdict, updated, written, next),
    ensures
        written is Ok ==> (next matches DecideStep::Record { updated: u, entry } && u == updated
            && entry@ == decision_entry(verdict, updated@)),
        written matches Err(StoreError::Conflict) ==> not_pending(next, "PENDING"@),
        written matches Err(e) ==> !(e is Conflict) ==> (next matches DecideStep::Done { result }
            && result == Err::<Request, RaflowError>(RaflowError::Store(e))),
{
}

/// A decision changes one request, if it is PENDING, and nothing else.
pub proof fn decision_touches_one_request(
    s: StoreView,
    decision: Decision,
    now: Timestamp,
    other: Seq<char>,
)
    ensures
        ({
            let after = decision_effect(s, decision, now);
            let id = decision.transaction_id@;
            &&& after.certificates == s.certificates
            &&& after.authorities == s.authorities
            &&& after.by_fingerprint == s.by_fingerprint
            &&& after.crls == s.crls
            &&& after.next_crl == s.next_crl
            &&& other != id ==> (after.requests.dom().contains(other)
                <==> s.requests.dom().contains(other)) && after.requests[other]
                == s.requests[other]
            &&& s.requests.dom().contains(id) && s.requests[id].state == RequestState::Pending
                ==> {
                &&& decision.verdict is Approve ==> after.requests[id].state
                    == RequestState::Approved
                &&& decision.verdict is Reject ==> after.requests[id].state
                    == RequestState::Rejected
                &&& after.requests[id].operator == decision.operator@
                &&& after.requests[id].comment == decision.comment@
                &&& after.requests[id].decided_at == Some(now)
                &&& after.requests[id].csr_der == s.requests[id].csr_der
            }
            &&& !(s.requests.dom().contains(id) && s.requests[id].state == RequestState::Pending)
                ==> after == s
        }),
{
}

/// An issue leaves the new line in the register, the request ISSUED under its
/// number, each superseded certificate revoked with reason 4 at that time, and
/// every other line as it was.
pub proof fn issue_changes_what_it_should(
    s: StoreView,
    request: RequestView,
    line: CertificateView,
    previous: Seq<CertificateView>,
    now: Timestamp,
    n: Seq<u8>,
    k: int,
)
    requires
        forall|i: int| 0 <= i < previous.len() ==> (#[trigger] previous[i]).serial != line.serial,
    ensures
        ({
            let after = issued_store(s, request, line, previous, now);
            let was = s.certificates[n];
            &&& after.certificates[line.serial] == line
            &&& after.certificates.dom().contains(n) <==> s.certificates.dom().contains(n) || n
                == line.serial
            &&& s.certificates.dom().contains(n) && n != line.serial && (forall|i: int|
                0 <= i < previous.len() ==> (#[trigger] previous[i]).serial != n)
                ==> after.certificates[n] == was
            &&& 0 <= k < previous.len() && previous[k].serial == n && s.certificates.dom().contains(
                n,
            ) && was.status == CertificateStatus::Issued ==> {
                &&& after.certificates[n].status == CertificateStatus::Revoked
                &&& after.certificates[n].revoked_at == Some(now)
                &&& after.certificates[n].revocation_reason == 4
                &&& after.certificates[n].der == was.der
            }
            &&& after.requests[request.transaction_id].state == RequestState::Issued
            &&& after.requests[request.transaction_id].issued_at == Some(now)
            &&& after.requests[request.transaction_id].certificate_serial == Some(line.serial)
            &&& after.requests[request.transaction_id].operator == request.operator
            &&& after.by_fingerprint == s.by_fingerprint
            &&& after.crls == s.crls
        }),
{
    let serials = crate::enrolment::serials_of_lines(previous);
    assert(serials.len() == previous.len());
    assert forall|m: Seq<u8>| #[trigger] serials.contains(m) <==> exists|i: int|
        0 <= i < previous.len() && (#[trigger] previous[i]).serial == m by {
        if serials.contains(m) {
            let i = choose|i: int| 0 <= i < serials.len() && serials[i] == m;
            assert(previous[i].serial == m);
        }
        if exists|i: int| 0 <= i < previous.len() && (#[trigger] previous[i]).serial == m {
            let i = choose|i: int| 0 <= i < previous.len() && (#[trigger] previous[i]).serial == m;
            assert(serials[i] == m);
        }
    }
    assert(!serials.contains(line.serial));
    if 0 <= k < previous.len() && previous[k].serial == n {
        assert(serials.contains(n));
    }
}

/// A request that is opened is PENDING, under its fingerprint and the first half
/// of it, and holds what was submitted.
pub proof fn opening_holds_what_was_submitted(
    csr_der: Seq<u8>,
    profile: Seq<char>,
    cn: Seq<char>,
    now: Timestamp,
)
    ensures
        ({
            let r = opening(csr_der, profile, cn, now);
            &&& r.transaction_id == hex_text(sha256_digest(csr_der)).take(32)
            &&& r.csr_fingerprint == hex_text(sha256_digest(csr_der))
            &&& r.csr_der == csr_der
            &&& r.profile == profile
            &&& r.subject_cn == cn
            &&& r.state == RequestState::Pending
            &&& r.created_at == now
            &&& r.decided_at is None
            &&& r.operator.len() == 0
            &&& r.comment.len() == 0
            &&& r.issued_at is None
            &&& r.certificate_serial is None
        }),
{
}

/// Whoever submits again is answered from where the enrolment stands.
pub proof fn resubmission_is_answered_from_the_state(
    q: RequestView,
    opened: RequestView,
    profile_name: Seq<char>,
    key: Seq<u8>,
    delay: Duration,
    step: SubmitStep,
)
    requires
        answers_again(q, opened, profile_name, key, delay, step),
    ensures
        q.profile != profile_name ==> refused(step, |e: RaflowError| e is Other),
        q.profile == profile_name ==> {
            &&& q.state == RequestState::Pending ==> waiting(step, q.transaction_id, delay)
            &&& q.state == RequestState::Rejected ==> refused(
                step,
                |e: RaflowError|
                    e matches RaflowError::Rejected { operator, comment } && operator@
                        == q.operator && comment@ == q.comment,
            )
            &&& q.state == RequestState::Approved ==> (step matches SubmitStep::Subject { issue }
                && issue.request@ == q && issue.spki_der@ == key && issue.cn@
                == opened.subject_cn && issue.profile@ == opened.profile)
            &&& q.state == RequestState::Issued && q.certificate_serial is Some ==> (
            step matches SubmitStep::Fetch { transaction_id, serial } && transaction_id@
                == q.transaction_id && Some(serial@) == q.certificate_serial)
        },
{
}

/// A submission is authenticated before all, then the profile must be known, the
/// certification request acceptable and its name admitted; whatever is refused
/// leaves the store as it was.
pub proof fn submission_is_checked_in_order(
    flow: Flow,
    before: StoreView,
    after: StoreView,
    csr_der: Seq<u8>,
    profile_name: Seq<char>,
    signature_hex: Seq<char>,
    around: Surroundings,
    step: SubmitStep,
)
    requires
        submitted(
            flow,
            before,
            after,
            csr_der,
            profile_name,
            signature_hex,
            around,
            step,
        ),
    ensures
        ({
            let known = authentic(csr_der, flow.opts.hmac_secret@, signature_hex);
            let readable = crate::x509::request_of(csr_der) is Ok;
            let good = crate::x509::request_of(csr_der) matches Ok(csr) && acceptable(csr);
            &&& !known ==> refused(step, |e: RaflowError| e is Unauthenticated) && after == before
            &&& known && around.profile is Err ==> refused(
                step,
                |e: RaflowError| e is Other,
            ) && after == before
            &&& known && around.profile is Ok && !readable ==> refused(
                step,
                |e: RaflowError| e is Der,
            ) && after == before
            &&& known && around.profile is Ok && readable && !good ==> refused(
                step,
                |e: RaflowError| e is Other,
            ) && after == before
            &&& known && around.profile is Ok && good && around.named is Err ==> refused(
                step,
                |e: RaflowError| e is Other,
            ) && after == before
            &&& after.certificates == before.certificates
            &&& after.authorities == before.authorities
            &&& after.crls == before.crls
            &&& after.next_crl == before.next_crl
            &&& after != before ==> known && good && around.profile is Ok && around.named is Ok
                && around.journal is Ok
        }),
{
}

/// A submission that is refused is told why: in the words of the authority where
/// it knows no such profile or does not admit the name, and of the reader where
/// the certification request cannot be read.
pub proof fn refused_submission_is_told_why(
    flow: Flow,
    before: StoreView,
    after: StoreView,
    csr_der: Seq<u8>,
    profile_name: Seq<char>,
    signature_hex: Seq<char>,
    around: Surroundings,
    step: SubmitStep,
)
    requires
        submitted(
            flow,
            before,
            after,
            csr_der,
            profile_name,
            signature_hex,
            around,
            step,
        ),
        authentic(csr_der, flow.opts.hmac_secret@, signature_hex),
    ensures
        around.profile matches Err(text) ==> refused(
            step,
            |e: RaflowError| e matches RaflowError::Other(t) && t@ == text@,
        ),
        around.profile is Ok ==> (crate::x509::request_of(csr_der) matches Err(fault) ==> refused(
            step,
            |e: RaflowError| e matches RaflowError::Der(t) && t@ == fault,
        )),
        around.profile is Ok && (crate::x509::request_of(csr_der) matches Ok(csr) && acceptable(
            csr,
        )) ==> (around.named matches Err(text) ==> refused(
            step,
            |e: RaflowError| e matches RaflowError::Other(t) && t@ == text@,
        )),
{
}

/// A certification request that is new and admitted opens an enrolment, once the
/// journal has taken it: it is in the store, PENDING, and waits. Every other
/// enrolment stays as it was.
pub proof fn admitted_request_opens_an_enrolment(
    flow: Flow,
    before: StoreView,
    after: StoreView,
    csr_der: Seq<u8>,
    profile_name: Seq<char>,
    signature_hex: Seq<char>,
    around: Surroundings,
    step: SubmitStep,
    other: Seq<char>,
)
    requires
        submitted(
            flow,
            before,
            after,
            csr_der,
            profile_name,
            signature_hex,
            around,
            step,
        ),
        authentic(csr_der, flow.opts.hmac_secret@, signature_hex),
        around.profile is Ok,
        crate::x509::request_of(csr_der) matches Ok(csr) && acceptable(csr),
        around.named is Ok,
        !before.by_fingerprint.dom().contains(hex_text(sha256_digest(csr_der))),
    ensures
        ({
            let fingerprint = hex_text(sha256_digest(csr_der));
            let id = fingerprint.take(32);
            &&& around.journal matches Err(text) ==> after == before && refused(
                step,
                |e: RaflowError| e matches RaflowError::Other(t) && t@ == "journal : "@ + text@,
            )
            &&& around.journal is Ok && before.requests.dom().contains(id) ==> after == before
                && refused(step, |e: RaflowError| e == RaflowError::Store(StoreError::Conflict))
            &&& around.journal is Ok && !before.requests.dom().contains(id) ==> {
                &&& waiting(step, id, flow.opts.retry_after)
                &&& after.requests.dom().contains(id)
                &&& after.requests[id].state == RequestState::Pending
                &&& after.requests[id].csr_der == csr_der
                &&& after.requests[id].csr_fingerprint == fingerprint
                &&& after.requests[id].profile == around.profile->Ok_0@
                &&& after.requests[id].created_at == around.now
                &&& after.by_fingerprint.dom().contains(fingerprint)
                &&& after.by_fingerprint[fingerprint] == id
                &&& other != id ==> (after.requests.dom().contains(other)
                    <==> before.requests.dom().contains(other)) && after.requests[other]
                    == before.requests[other]
            }
        }),
{
}

/// The decision stands once it is written: it is answered with the request as it
/// was decided, unless the journal fails, which is reported.
pub proof fn journal_is_answered_for(
    updated: Request,
    recorded: Result<(), String>,
    next: DecideStep,
)
    requires
        crate::decision::follows_record(updated, recorded, next),
    ensures
        recorded is Ok ==> (next matches DecideStep::Done { result } && result == Ok::<
            Request,
            RaflowError,
        >(updated)),
        recorded matches Err(text) ==> (next matches DecideStep::Done { result }
            && (result matches Err(RaflowError::Other(t)) && t@ == "journal : "@ + text@)),
{
}

/// A signature is accepted exactly where it is hexadecimal, of either case, for
/// the code of the certification request.
pub proof fn code_is_accepted_in_either_case(
    csr_der: Seq<u8>,
    secret: Seq<char>,
    text: Seq<char>,
)
    ensures
        authentic(csr_der, secret, text) <==> crate::crypto::is_hex(text)
            && crate::crypto::hex_bytes(text) == hmac_code(
            vstd::utf8::encode_utf8(secret),
            csr_der,
        ),
{
}

/// A refusal is an error with its own text, and no other.
pub proof fn refusals_have_their_text(e: RaflowError, f: StoreError, step: SubmitStep, text: Seq<char>)
    ensures
        crate::raflow::is_refusal(e, text) <==> (e matches RaflowError::Other(t) && t@ == text),
        crate::rows::is_other(f, text) <==> (f matches StoreError::Other(t) && t@ == text),
        crate::enrolment::authority_refuses(step, f) ==> (step matches SubmitStep::Done { result }
            && (result matches Err(RaflowError::Ca(t)) && t@ == f.message())),
{
}

} // verus!
