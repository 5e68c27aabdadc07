//! The views of values show what the values hold, field by field and one by one.
use vstd::prelude::*;

use crate::castore::{Authority, Certificate, Crl, Request};
use crate::conformance::{Counts, Finding, Status};
use crate::decision::JournalEntry;
use crate::ocsp_request::CertId;
use crate::x509::{
    CertificationRequest, Extension, NameAttribute, RevocationList, RevokedEntry,
};

verus! {

/// The lines, requests, authorities and lists of the store.
pub proof fn records_show_their_fields(c: Certificate, r: Request, a: Authority, l: Crl)
    ensures
        c@.serial == c.serial@ && c@.profile == c.profile@ && c@.subject_dn == c.subject_dn@
            && c@.issuer_dn == c.issuer_dn@ && c@.not_before == c.not_before && c@.not_after
            == c.not_after && c@.der == c.der@ && c@.status == c.status && c@.revoked_at
            == c.revoked_at && c@.revocation_reason == c.revocation_reason
            && c@.request_transaction_id == c.request_transaction_id@,
        r@.transaction_id == r.transaction_id@ && r@.csr_fingerprint == r.csr_fingerprint@
            && r@.csr_der == r.csr_der@ && r@.profile == r.profile@ && r@.subject_cn
            == r.subject_cn@ && r@.state == r.state && r@.created_at == r.created_at
            && r@.decided_at == r.decided_at && r@.operator == r.operator@ && r@.comment
            == r.comment@ && r@.issued_at == r.issued_at,
        r.certificate_serial is None <==> r@.certificate_serial is None,
        r.certificate_serial matches Some(n) ==> r@.certificate_serial == Some(n@),
        a@.name == a.name@ && a@.subject_dn == a.subject_dn@ && a@.der == a.der@ && a@.token_label
            == a.token_label@ && a@.key_label == a.key_label@ && a@.created_at == a.created_at,
        l@.number == l.number && l@.der == l.der@ && l@.this_update == l.this_update
            && l@.next_update == l.next_update,
{
}

/// Extensions, attributes, certificates, requests and revocation lists.
pub proof fn readings_show_their_fields(
    e: Extension,
    a: NameAttribute,
    c: crate::x509::Certificate,
    q: CertificationRequest,
    r: RevokedEntry,
    l: RevocationList,
    id: CertId,
)
    ensures
        e@.oid == e.oid@ && e@.critical == e.critical && e@.value == e.value@,
        a@.0 == a.oid@ && a@.1 == a.value@,
        c@.signature_algorithm == c.signature_algorithm@ && c@.not_before == c.not_before
            && c@.not_after == c.not_after && c@.subject == c.subject@ && c@.public_key_info
            == c.public_key_info@ && c@.encoding == c.encoding@ && c@.extensions.len()
            == c.extensions@.len(),
        q@.info == q.info@ && q@.subject == q.subject@ && q@.public_key_info == q.public_key_info@
            && q@.signature == q.signature@,
        r@.serial == r.serial@ && r@.revoked_at == r.revoked_at && r@.extensions.len()
            == r.extensions@.len(),
        l@.tbs == l.tbs@ && l@.signature == l.signature@ && l@.this_update == l.this_update
            && l@.extensions.len() == l.extensions@.len(),
        l.next_update is None <==> l@.next_update is None,
        l.next_update matches Some(n) ==> l@.next_update == Some(n as nat),
        id@.encoding == id.encoding@ && id@.algorithm == id.algorithm@ && id@.name_hash
            == id.name_hash@ && id@.key_hash == id.key_hash@ && id@.serial == id.serial@,
{
}

/// Extensions are shown one by one, wherever they stand.
pub proof fn extensions_are_shown_one_by_one(
    c: crate::x509::Certificate,
    r: RevokedEntry,
    l: RevocationList,
    i: int,
)
    ensures
        0 <= i < c.extensions@.len() ==> c@.extensions[i] == c.extensions@[i]@,
        0 <= i < r.extensions@.len() ==> r@.extensions[i] == r.extensions@[i]@,
        0 <= i < l.extensions@.len() ==> l@.extensions[i] == l.extensions@[i]@,
{
}

/// Lists are shown one by one.
pub proof fn lists_are_shown_one_by_one(
    bytes: Seq<Vec<u8>>,
    texts: Seq<String>,
    lines: Seq<Certificate>,
    requests: Seq<Request>,
    attributes: Seq<NameAttribute>,
    entries: Seq<RevokedEntry>,
    ids: Seq<CertId>,
    names: Seq<Option<String>>,
    i: int,
)
    ensures
        crate::x509::byte_views(bytes).len() == bytes.len(),
        0 <= i < bytes.len() ==> crate::x509::byte_views(bytes)[i] == bytes[i]@,
        crate::text::views(texts).len() == texts.len(),
        0 <= i < texts.len() ==> crate::text::views(texts)[i] == texts[i]@,
        crate::memory::line_views(lines).len() == lines.len(),
        0 <= i < lines.len() ==> crate::memory::line_views(lines)[i] == lines[i]@,
        crate::memory::request_views(requests).len() == requests.len(),
        0 <= i < requests.len() ==> crate::memory::request_views(requests)[i] == requests[i]@,
        crate::x509::attribute_views(attributes).len() == attributes.len(),
        0 <= i < attributes.len() ==> crate::x509::attribute_views(attributes)[i]
            == attributes[i]@,
        crate::x509::revoked_views(entries).len() == entries.len(),
        0 <= i < entries.len() ==> crate::x509::revoked_views(entries)[i] == entries[i]@,
        crate::ocsp_request::id_views(ids).len() == ids.len(),
        0 <= i < ids.len() ==> crate::ocsp_request::id_views(ids)[i] == ids[i]@,
        crate::x509::optional_views(names).len() == names.len(),
        0 <= i < names.len() ==> (names[i] matches Some(t) ==> crate::x509::optional_views(names)[i]
            == Some(t@)) && (names[i] is None ==> crate::x509::optional_views(names)[i] is None),
{
}

/// What the journal is told, findings that are borrowed, literal texts and pairs
/// of texts are shown one by one.
pub proof fn more_lists_are_shown_one_by_one(
    entry: JournalEntry,
    findings: Seq<&Finding>,
    literals: Seq<&'static str>,
    pairs: Seq<(String, String)>,
    i: int,
)
    ensures
        entry@.event == entry.event@,
        entry@.fields.len() == entry.fields@.len(),
        0 <= i < entry.fields@.len() ==> entry@.fields[i] == (
            entry.fields@[i].0@,
            entry.fields@[i].1@,
        ),
        crate::conformance::borrowed(findings).len() == findings.len(),
        0 <= i < findings.len() ==> crate::conformance::borrowed(findings)[i] == *findings[i],
        crate::conformance::literal_views(literals).len() == literals.len(),
        0 <= i < literals.len() ==> crate::conformance::literal_views(literals)[i] == literals[i]@,
        crate::extensions::access_views(pairs).len() == pairs.len(),
        0 <= i < pairs.len() ==> crate::extensions::access_views(pairs)[i] == (
            pairs[i].0@,
            pairs[i].1@,
        ),
{
}

/// What may be absent is shown as it is, or as absent.
pub proof fn optional_values_are_shown(
    bytes: Option<Vec<u8>>,
    text: Option<&str>,
    seconds: Option<u64>,
    bits: Result<usize, String>,
    flag: Option<Result<bool, String>>,
    value: Option<String>,
)
    ensures
        crate::castore::optional_bytes(bytes) is Some <==> bytes is Some,
        bytes matches Some(b) ==> crate::castore::optional_bytes(bytes) == Some(b@),
        crate::extensions::optional_text(text) is Some <==> text is Some,
        text matches Some(t) ==> crate::extensions::optional_text(text) == Some(t@),
        crate::ocsp::seconds_view(seconds) is Some <==> seconds is Some,
        seconds matches Some(s) ==> crate::ocsp::seconds_view(seconds) == Some(s as nat),
        bits matches Ok(n) ==> crate::raflow::key_bits_view(bits) == Ok::<nat, Seq<char>>(
            n as nat,
        ),
        bits matches Err(t) ==> crate::raflow::key_bits_view(bits) == Err::<nat, Seq<char>>(t@),
        crate::profile::read_view(flag) is None <==> flag is None,
        flag matches Some(Ok(b)) ==> crate::profile::read_view(flag) == Some(
            Ok::<bool, Seq<char>>(b),
        ),
        flag matches Some(Err(t)) ==> crate::profile::read_view(flag) == Some(
            Err::<bool, Seq<char>>(t@),
        ),
        crate::settings::set_text(value) is Some <==> (value matches Some(v) && v@.len() > 0),
        crate::settings::set_text(value) matches Some(t) ==> (value matches Some(v) && v@ == t),
{
}

/// The counts of a matrix are held by status.
pub proof fn counts_are_held_by_status(c: Counts)
    ensures
        c.of(Status::Covered) == c.covered,
        c.of(Status::Gap) == c.gap,
        c.of(Status::OutOfScope) == c.out_of_scope,
{
}

/// What reads as a value was read without a fault and is that value.
pub proof fn what_was_read_is_the_value(read: Result<u16, Seq<char>>, value: u16)
    ensures
        crate::x509::reads_as(read, value) <==> (read matches Ok(v) && v == value),
{
}

} // verus!
