//! What calls of the operations promise: their arguments on one side, their
//! results on the other.
use vstd::prelude::*;

use crate::castore::{Certificate, CertificateStatus, RequestState, StoreError};
use crate::clock::{Duration, Timestamp};
use crate::conformance::{render_markdown, Entry, Matrix};
use crate::laws::certificates::{
    follows_policy, internal_client_meets_every_rule, internal_policy,
    internal_server_meets_every_rule, lives_at_most, no_authority, purpose, purpose_is_critical,
    responder_meets_every_rule, serves, serves_only, signed_well, signs, signs_only,
    unit_meets_every_rule,
};
use crate::laws::document::{every_entry_is_published, last_cell, row_holds_the_entry, status_word};
use crate::laws::enrolment::{publication_delivers_certificate_and_chain, same_bytes};
use crate::laws::responder::{
    at_second, good_is_issued_and_not_revoked, reason_is_said, revoked_status_is_that_of_the_entry,
};
use crate::laws::store::{every_active_certificate_is_listed, every_revoked_certificate_is_listed};
use crate::memory::Memory;
use crate::ocsp::{build_snapshot, CrlSnapshot, Responder};
use crate::ocsp_response::{CertStatus, Update};
use crate::profile::{
    check_internal_client_certificate, check_internal_server_certificate,
    check_ocsp_responder_certificate, check_tsu_certificate, dns_names_of,
};
use crate::raflow::common_name_of;
use crate::submission::{Flow, Issued, SubmitAnswer, SubmitStep};
use crate::x509::RevokedEntry;

verus! {

/// A responder that holds the snapshot of a list says of each number in it what
/// the last entry with that number says: revoked, at its date and for its reason.
pub proof fn lookup_tells_what_the_entry_says(
    entries: Vec<RevokedEntry>,
    serials: Vec<Vec<u8>>,
    this_update: u64,
    next_update: Option<u64>,
    read_at: u128,
    snapshot: CrlSnapshot,
    responder: Responder,
    serial: &[u8],
    now: u128,
    r: Option<Update>,
    i: int,
)
    requires
        call_ensures(
            build_snapshot,
            (&entries, &serials, this_update, next_update, read_at),
            snapshot,
        ),
        responder.snapshot == snapshot,
        call_ensures(Responder::lookup, (&responder, serial, now), r),
        0 <= i < entries@.len(),
        entries@[i].serial@ == serial@,
        forall|j: int| i < j < entries@.len() ==> (#[trigger] entries@[j]).serial@ != serial@,
    ensures
        r is Some <==> now - read_at <= 2 * responder.opts.crl_refresh,
        r matches Some(u) ==> (u.status matches CertStatus::Revoked { at, reason } && at_second(
            at,
            entries@[i].revoked_at as nat,
        ) && reason_is_said(entries@[i]@.extensions, reason)),
{
    let views = crate::x509::revoked_views(entries@);
    let issued = crate::x509::byte_views(serials@);
    assert forall|j: int| i < j < views.len() implies (#[trigger] views[j]).serial
        != views[i].serial by {
        assert(entries@[j].serial@ != serial@);
    }
    revoked_status_is_that_of_the_entry(
        views,
        issued,
        this_update as nat,
        crate::ocsp::seconds_view(next_update),
        read_at,
        i,
    );
}

/// Of a number that no entry has, it says good where the number is among the
/// issued ones, and unknown where it is not.
pub proof fn lookup_tells_what_is_issued(
    entries: Vec<RevokedEntry>,
    serials: Vec<Vec<u8>>,
    this_update: u64,
    next_update: Option<u64>,
    read_at: u128,
    snapshot: CrlSnapshot,
    responder: Responder,
    serial: &[u8],
    now: u128,
    r: Option<Update>,
)
    requires
        call_ensures(
            build_snapshot,
            (&entries, &serials, this_update, next_update, read_at),
            snapshot,
        ),
        responder.snapshot == snapshot,
        call_ensures(Responder::lookup, (&responder, serial, now), r),
        forall|j: int| 0 <= j < entries@.len() ==> (#[trigger] entries@[j]).serial@ != serial@,
    ensures
        r is Some <==> now - read_at <= 2 * responder.opts.crl_refresh,
        r matches Some(u) ==> u.status == (if exists|j: int|
            0 <= j < serials@.len() && (#[trigger] serials@[j])@ == serial@ {
            CertStatus::Good
        } else {
            CertStatus::Unknown
        }),
{
    let views = crate::x509::revoked_views(entries@);
    let issued = crate::x509::byte_views(serials@);
    assert forall|j: int| 0 <= j < views.len() implies (#[trigger] views[j]).serial
        != serial@ by {
        assert(entries@[j].serial@ != serial@);
    }
    good_is_issued_and_not_revoked(
        views,
        issued,
        this_update as nat,
        crate::ocsp::seconds_view(next_update),
        read_at,
        serial@,
    );
    assert(issued.contains(serial@) <==> exists|j: int|
        0 <= j < serials@.len() && (#[trigger] serials@[j])@ == serial@) by {
        if issued.contains(serial@) {
            let j = choose|j: int| 0 <= j < issued.len() && issued[j] == serial@;
            assert(serials@[j]@ == serial@);
        }
        if exists|j: int| 0 <= j < serials@.len() && (#[trigger] serials@[j])@ == serial@ {
            let j = choose|j: int| 0 <= j < serials@.len() && (#[trigger] serials@[j])@ == serial@;
            assert(issued[j] == serial@);
        }
    }
}

/// The step after a publication hands over the certificate that was issued, and
/// every certificate of the chain in its order.
pub proof fn advance_delivers_the_whole_chain(
    flow: Flow,
    issued: Issued,
    chain: Vec<Vec<u8>>,
    next: SubmitStep,
)
    requires
        call_ensures(
            Flow::advance,
            (
                &flow,
                SubmitStep::Publish { issued },
                SubmitAnswer::Published { result: Ok(()), chain },
            ),
            next,
        ),
    ensures
        next matches SubmitStep::Done { result } && (result matches Ok(r) && {
            &&& r.state == RequestState::Issued
            &&& r.transaction_id@ == issued.transaction_id@
            &&& r.retry_after is None
            &&& r.certificate matches Some(der) && der@ == issued.der@
            &&& same_bytes(r.chain@, chain@)
        }),
{
    publication_delivers_certificate_and_chain(flow, issued, chain, next);
}

/// The list of revoked certificates holds each that the store has as revoked and
/// that is not expired for longer than the grace, for whatever reason it was
/// revoked, and no other.
pub proof fn revoked_lists_every_reason(
    store: Memory,
    now: Timestamp,
    grace: Duration,
    r: Result<Vec<Certificate>, StoreError>,
    serial: Seq<u8>,
)
    requires
        call_ensures(Memory::revoked, (&store, now, grace), r),
        store@.certificates.dom().contains(serial),
        store@.certificates[serial].serial == serial,
    ensures
        r matches Ok(list) && ((exists|i: int|
            0 <= i < list@.len() && (#[trigger] list@[i])@ == store@.certificates[serial]) <==> {
            &&& store@.certificates[serial].status == CertificateStatus::Revoked
            &&& now.nanos <= store@.certificates[serial].not_after.nanos + grace.nanos
        }),
{
    let c = store@.certificates[serial];
    let views = crate::memory::line_views(r->Ok_0@);
    every_revoked_certificate_is_listed(views, store@, now, grace, c);
    same_lines(r->Ok_0@, c);
}

/// The list of active certificates holds each that is issued to the subject and
/// not expired, and no other.
pub proof fn active_lists_every_line(
    store: Memory,
    subject_dn: &str,
    now: Timestamp,
    r: Result<Vec<Certificate>, StoreError>,
    serial: Seq<u8>,
)
    requires
        call_ensures(Memory::active_by_subject, (&store, subject_dn, now), r),
        store@.certificates.dom().contains(serial),
        store@.certificates[serial].serial == serial,
    ensures
        r matches Ok(list) && ((exists|i: int|
            0 <= i < list@.len() && (#[trigger] list@[i])@ == store@.certificates[serial]) <==> {
            &&& store@.certificates[serial].status == CertificateStatus::Issued
            &&& store@.certificates[serial].subject_dn == subject_dn@
            &&& now.nanos < store@.certificates[serial].not_after.nanos
        }),
{
    let c = store@.certificates[serial];
    let views = crate::memory::line_views(r->Ok_0@);
    every_active_certificate_is_listed(views, store@, subject_dn@, now, c);
    same_lines(r->Ok_0@, c);
}

proof fn same_lines(list: Seq<Certificate>, c: crate::castore::CertificateView)
    ensures
        crate::memory::line_views(list).contains(c) <==> exists|i: int|
            0 <= i < list.len() && (#[trigger] list[i])@ == c,
{
    let views = crate::memory::line_views(list);
    if views.contains(c) {
        let i = choose|i: int| 0 <= i < views.len() && views[i] == c;
        assert(list[i]@ == c);
    }
    if exists|i: int| 0 <= i < list.len() && (#[trigger] list[i])@ == c {
        let i = choose|i: int| 0 <= i < list.len() && (#[trigger] list[i])@ == c;
        assert(views[i] == c);
    }
}

/// The checks of the internal link accept exactly the certificates that meet
/// every rule; that they may sign is one of them.
pub proof fn internal_checks_accept_what_meets_every_rule(
    subject: &str,
    cert: crate::x509::Certificate,
    client: Result<(), String>,
    server: Result<(), String>,
)
    requires
        call_ensures(check_internal_client_certificate, (subject, &cert), client),
        call_ensures(check_internal_server_certificate, (subject, &cert), server),
    ensures
        client is Ok <==> signed_well(cert@) && lives_at_most(cert@, 180) && no_authority(cert@)
            && serves_only(cert@, purpose(2)) && follows_policy(cert@, internal_policy(1))
            && signs(cert@),
        server is Ok <==> signed_well(cert@) && lives_at_most(cert@, 180) && no_authority(cert@)
            && serves_only(cert@, purpose(1)) && follows_policy(cert@, internal_policy(2))
            && signs(cert@) && dns_names_of(cert@).contains(common_name_of(cert@.subject)),
{
    internal_client_meets_every_rule(subject@, cert@);
    internal_server_meets_every_rule(subject@, cert@);
}

/// So do the checks of units and of responders.
pub proof fn unit_and_responder_checks_accept_what_meets_every_rule(
    subject: &str,
    cert: crate::x509::Certificate,
    unit: Result<(), String>,
    responder: Result<(), String>,
)
    requires
        call_ensures(check_tsu_certificate, (subject, &cert), unit),
        call_ensures(check_ocsp_responder_certificate, (subject, &cert), responder),
    ensures
        unit is Ok <==> signed_well(cert@) && lives_at_most(cert@, 1170) && no_authority(cert@)
            && purpose_is_critical(cert@) && serves_only(cert@, purpose(8)) && signs_only(cert@),
        responder is Ok <==> signed_well(cert@) && lives_at_most(cert@, 180) && no_authority(
            cert@,
        ) && serves(cert@, purpose(9)) && crate::laws::certificates::extension(
            cert@,
            seq![0x2bu8, 6, 1, 5, 5, 7, 0x30, 1, 5],
        ) is Some && signs(cert@),
{
    unit_meets_every_rule(subject@, cert@);
    responder_meets_every_rule(subject@, cert@);
}

/// The row that an entry has in the published document.
pub open spec fn published(e: Entry) -> Seq<char> {
    "| "@ + crate::conformance::cell_text(e.requirement.clause@) + " | "@
        + crate::conformance::cell_text(e.requirement.title@) + " | "@
        + crate::conformance::cell_text(status_word(e.status)) + " | "@
        + crate::conformance::cell_text(e.mechanism@) + " | "@ + last_cell(e) + " |\n"@
}

/// The document that is produced holds the row of every entry, with the target of
/// each that is not covered.
pub proof fn document_holds_every_row(m: Matrix, r: String, i: int) -> (split: (
    Seq<char>,
    Seq<char>,
))
    requires
        call_ensures(render_markdown, (&m,), r),
        0 <= i < m.0@.len(),
    ensures
        r@ == split.0 + published(m.0@[i]) + split.1,
{
    let list = choose|list: Seq<Seq<char>>| #[trigger]
        crate::conformance::lists_standards(list, m.0@) && r@ == crate::conformance::document(
            m.0@,
            list,
        );
    let around = every_entry_is_published(m.0@, list, i);
    row_holds_the_entry(m.0@[i]);
    let standard = m.0@[i].requirement.standard@;
    (
        around.0 + crate::laws::document::heading(standard) + crate::conformance::rows(
            m.0@.take(i),
            standard,
        ),
        around.1,
    )
}

} // verus!
