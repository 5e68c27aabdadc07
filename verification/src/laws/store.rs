//! What the store promises: which lines each list holds and in which order, and
//! what a reservation and a revocation leave in the register.
use vstd::prelude::*;

use crate::castore::{
    CertificateStatus, CertificateView, CrlView, RequestState, RequestView,
};
use crate::clock::{Duration, Timestamp};
use crate::memory::{
    active, is_latest, listed_as_revoked, lists_issued, lists_lines, lists_requests, reserved,
    revoked_line, signed, visible, StoreView,
};
use crate::order::{lex_less, text_less};

verus! {

/// The line is in the register, under its own number.
pub open spec fn registered(s: StoreView, c: CertificateView) -> bool {
    s.certificates.dom().contains(c.serial) && s.certificates[c.serial] == c
}

/// A revocation list carries every certificate that is revoked and not expired
/// for longer than the grace, and no other: neither the date nor the reason of
/// the revocation matters.
pub proof fn every_revoked_certificate_is_listed(
    list: Seq<CertificateView>,
    s: StoreView,
    now: Timestamp,
    grace: Duration,
    c: CertificateView,
)
    requires
        lists_lines(list, s, listed_as_revoked(now, grace)),
    ensures
        list.contains(c) <==> registered(s, c) && c.status == CertificateStatus::Revoked
            && now.nanos <= c.not_after.nanos + grace.nanos,
{
}

/// Once an issued certificate is revoked, at any date and for any reason, it is
/// in every revocation list up to the end of its validity and of the grace, with
/// that date and that reason.
pub proof fn revocation_reaches_the_list(
    s: StoreView,
    serial: Seq<u8>,
    at: Timestamp,
    reason: i32,
    list: Seq<CertificateView>,
    now: Timestamp,
    grace: Duration,
)
    requires
        s.certificates.dom().contains(serial),
        s.certificates[serial].serial == serial,
        s.certificates[serial].status == CertificateStatus::Issued,
        now.nanos <= s.certificates[serial].not_after.nanos + grace.nanos,
        lists_lines(
            list,
            StoreView {
                certificates: s.certificates.insert(
                    serial,
                    revoked_line(s.certificates[serial], at, reason),
                ),
                ..s
            },
            listed_as_revoked(now, grace),
        ),
    ensures
        exists|k: int|
            {
                &&& 0 <= k < list.len()
                &&& (#[trigger] list[k]).serial == serial
                &&& list[k].status == CertificateStatus::Revoked
                &&& list[k].revoked_at == Some(at)
                &&& list[k].revocation_reason == reason
                &&& list[k].not_after == s.certificates[serial].not_after
            },
{
    let line = revoked_line(s.certificates[serial], at, reason);
    assert(list.contains(line));
    let k = choose|k: int| 0 <= k < list.len() && list[k] == line;
    assert(list[k].serial == serial);
}

/// Two certificates that differ in nothing but the date and the reason of their
/// revocation are listed alike.
pub proof fn reason_does_not_matter(
    c: CertificateView,
    at: Option<Timestamp>,
    reason: i32,
    now: Timestamp,
    grace: Duration,
)
    ensures
        listed_as_revoked(now, grace)(c) == listed_as_revoked(now, grace)(
            CertificateView { revoked_at: at, revocation_reason: reason, ..c },
        ),
{
}

/// The active certificates of a subject are those that are issued to it and not
/// expired, and no other.
pub proof fn every_active_certificate_is_listed(
    list: Seq<CertificateView>,
    s: StoreView,
    subject_dn: Seq<char>,
    now: Timestamp,
    c: CertificateView,
)
    requires
        lists_lines(list, s, active(subject_dn, now)),
    ensures
        list.contains(c) <==> registered(s, c) && c.status == CertificateStatus::Issued
            && c.subject_dn == subject_dn && now.nanos < c.not_after.nanos,
{
}

/// Every line that is issued or revoked is signed, and no other.
pub proof fn signed_is_issued_or_revoked(c: CertificateView)
    ensures
        signed()(c) <==> c.status == CertificateStatus::Issued || c.status
            == CertificateStatus::Revoked,
{
}

/// The order of lines in a list is that of their numbers, and each number occurs
/// once.
pub proof fn lines_are_in_order(
    list: Seq<CertificateView>,
    s: StoreView,
    keep: spec_fn(CertificateView) -> bool,
    i: int,
    j: int,
)
    requires
        lists_lines(list, s, keep),
        0 <= i < j < list.len(),
    ensures
        lex_less(list[i].serial, list[j].serial),
        list[i].serial != list[j].serial,
{
    assert(lex_less(list[i].serial, list[j].serial));
    crate::order::lex_irreflexive(list[i].serial);
}

/// The numbers that were ever issued are those of the certificates that are
/// issued or revoked: each once, in ascending order, and never one that is only
/// reserved.
pub proof fn issued_numbers_are_all_listed(
    serials: Seq<Seq<u8>>,
    s: StoreView,
    n: Seq<u8>,
    i: int,
    j: int,
)
    requires
        lists_issued(serials, s),
    ensures
        serials.contains(n) <==> s.certificates.dom().contains(n) && (s.certificates[n].status
            == CertificateStatus::Issued || s.certificates[n].status
            == CertificateStatus::Revoked),
        0 <= i < j < serials.len() ==> lex_less(serials[i], serials[j]) && serials[i]
            != serials[j],
{
    if 0 <= i < j < serials.len() {
        assert(lex_less(serials[i], serials[j]));
        crate::order::lex_irreflexive(serials[i]);
    }
}

/// A certificate can be seen once it is issued, and stays so once it is revoked.
pub proof fn seen_once_issued(s: StoreView, n: Seq<u8>)
    ensures
        visible(s, n) <==> s.certificates.dom().contains(n) && (s.certificates[n].status
            == CertificateStatus::Issued || s.certificates[n].status
            == CertificateStatus::Revoked),
{
}

/// A revocation of what is issued marks it revoked, with its date and reason,
/// and keeps all else; of anything else it changes nothing.
pub proof fn revocation_marks_the_line(c: CertificateView, at: Timestamp, reason: i32)
    ensures
        ({
            let r = revoked_line(c, at, reason);
            &&& r.serial == c.serial
            &&& r.profile == c.profile
            &&& r.subject_dn == c.subject_dn
            &&& r.issuer_dn == c.issuer_dn
            &&& r.not_before == c.not_before
            &&& r.not_after == c.not_after
            &&& r.der == c.der
            &&& r.request_transaction_id == c.request_transaction_id
            &&& c.status == CertificateStatus::Issued ==> r.status == CertificateStatus::Revoked
                && r.revoked_at == Some(at) && r.revocation_reason == reason
            &&& c.status != CertificateStatus::Issued ==> r.status == c.status && r.revoked_at
                == c.revoked_at && r.revocation_reason == c.revocation_reason
        }),
{
}

/// A reservation holds its number and its profile and nothing else yet.
pub proof fn reservation_is_bare(serial: Seq<u8>, profile: Seq<char>)
    ensures
        ({
            let c = reserved(serial, profile);
            &&& c.serial == serial
            &&& c.profile == profile
            &&& c.status == CertificateStatus::Reserved
            &&& c.subject_dn.len() == 0
            &&& c.issuer_dn.len() == 0
            &&& c.der.len() == 0
            &&& c.revoked_at is None
            &&& c.revocation_reason == 0
            &&& c.request_transaction_id.len() == 0
            &&& c.not_before.nanos == 0
            &&& c.not_after.nanos == 0
        }),
{
}

/// The requests in a state are all listed, and no other; all of them where no
/// state is asked for.
pub proof fn every_request_is_listed(
    list: Seq<RequestView>,
    s: StoreView,
    state: Option<RequestState>,
    r: RequestView,
)
    requires
        lists_requests(list, s, state),
    ensures
        list.contains(r) <==> s.requests.dom().contains(r.transaction_id)
            && s.requests[r.transaction_id] == r && (state matches Some(wanted) ==> r.state
            == wanted),
{
}

/// The older request comes first, and of two of one age the one whose
/// transaction comes first.
pub proof fn requests_are_in_order(
    list: Seq<RequestView>,
    s: StoreView,
    state: Option<RequestState>,
    i: int,
    j: int,
)
    requires
        lists_requests(list, s, state),
        0 <= i < j < list.len(),
    ensures
        list[i].created_at.nanos <= list[j].created_at.nanos,
        list[i].created_at.nanos == list[j].created_at.nanos ==> text_less(
            list[i].transaction_id,
            list[j].transaction_id,
        ),
{
    assert(crate::memory::older(list[i], list[j]));
}

/// The latest revocation list is one that was saved, and none has a higher
/// number.
pub proof fn latest_has_the_highest_number(c: CrlView, crls: Seq<CrlView>, k: int)
    requires
        is_latest(c, crls),
    ensures
        crls.contains(c),
        0 <= k < crls.len() ==> crls[k].number <= c.number,
        0 <= k < crls.len() && crls[k].number == c.number && crls[k] != c ==> exists|i: int|
            k < i < crls.len() && #[trigger] crls[i] == c,
{
    let i = choose|i: int|
        #![trigger crls[i]]
        {
            &&& 0 <= i < crls.len()
            &&& crls[i] == c
            &&& forall|j: int| 0 <= j < crls.len() ==> (#[trigger] crls[j]).number <= c.number
            &&& forall|j: int| i < j < crls.len() ==> (#[trigger] crls[j]).number < c.number
        };
    assert(crls[i] == c);
    if 0 <= k < crls.len() {
        assert(crls[k].number <= c.number);
    }
}

/// The order of byte strings is decided where they first differ, by the smaller
/// byte; a string comes before those that it begins.
pub proof fn first_difference_decides(p: Seq<u8>, x: u8, y: u8, a: Seq<u8>, b: Seq<u8>)
    ensures
        x < y ==> lex_less(p.push(x) + a, p.push(y) + b),
        y < x ==> !lex_less(p.push(x) + a, p.push(y) + b),
        lex_less(p, p.push(x) + a),
        !lex_less(p.push(x) + a, p),
{
    let u = p.push(x) + a;
    let v = p.push(y) + b;
    let n = p.len() as int;
    if x < y {
        assert(crate::order::first_difference(u, v, n));
    }
    if y < x {
        assert(crate::order::first_difference(v, u, n));
        crate::order::lex_asymmetric(v, u);
    }
    assert(crate::order::first_difference(p, u, n));
    crate::order::lex_asymmetric(p, u);
}

/// In a store that is in order every line stands under its own number, every
/// request under its own transaction, and every fingerprint leads to a request.
pub proof fn store_in_order(s: StoreView, n: Seq<u8>, id: Seq<char>, f: Seq<char>)
    requires
        crate::memory::coherent(s),
    ensures
        s.certificates.dom().contains(n) ==> s.certificates[n].serial == n,
        s.requests.dom().contains(id) ==> s.requests[id].transaction_id == id,
        s.by_fingerprint.dom().contains(f) ==> s.requests.dom().contains(s.by_fingerprint[f]),
{
}

/// An empty store holds nothing, and gives the number 1 to its first list.
pub proof fn empty_store_is_empty()
    ensures
        ({
            let s = crate::memory::nothing();
            &&& s.certificates.dom() == Set::<Seq<u8>>::empty()
            &&& s.requests.dom() == Set::<Seq<char>>::empty()
            &&& s.by_fingerprint.dom() == Set::<Seq<char>>::empty()
            &&& s.authorities.dom() == Set::<Seq<char>>::empty()
            &&& s.crls.len() == 0
            &&& s.next_crl == 0
        }),
{
    let s = crate::memory::nothing();
    assert(s.certificates.dom() =~= Set::<Seq<u8>>::empty());
    assert(s.requests.dom() =~= Set::<Seq<char>>::empty());
    assert(s.by_fingerprint.dom() =~= Set::<Seq<char>>::empty());
    assert(s.authorities.dom() =~= Set::<Seq<char>>::empty());
}

} // verus!
