//! What the responder promises: each status comes from the entries of the list
//! with that serial number, and what is signed says so.
use vstd::prelude::*;

use crate::asn1::{tlv, MAX_CONTENT};
use crate::calendar::Date;
use crate::clock::Timestamp;
use crate::crypto::{rsa_signature_fault, sha1_digest, sha256_digest};
use crate::ocsp::{
    answers, handles, issuer_hashes, known_of, reads_snapshot, revocations, snapshot_of, status_of,
    CrlSnapshot, Moment, OcspError, Responder, SnapshotView, Step,
};
use crate::ocsp_request::{ids_asked, CertIdView};
use crate::ocsp_response::{basic_response, response_data, successful_response, CertStatus, OcspResponseStatus, Update};
use crate::profile::extension_named;
use crate::x509::{
    public_key_bits_of, revocation_list_of, revoked_entries_of, serials_of, CertificateView,
    ExtensionView, RevokedEntryView,
};

verus! {

/// A point in time is at a number of seconds since the epoch; one beyond the
/// year 9999 is taken for the epoch.
pub open spec fn at_second(t: Timestamp, seconds: nat) -> bool {
    t.nanos == (if seconds <= 253_402_300_799 {
        seconds * 1_000_000_000
    } else {
        0
    })
}

/// The first extension with an identifier stands at a position.
pub open spec fn first_at(extensions: Seq<ExtensionView>, oid: Seq<u8>, k: int) -> bool {
    &&& 0 <= k < extensions.len()
    &&& extensions[k].oid == oid
    &&& forall|j: int| 0 <= j < k ==> (#[trigger] extensions[j]).oid != oid
}

/// No extension has the identifier.
pub open spec fn absent(extensions: Seq<ExtensionView>, oid: Seq<u8>) -> bool {
    forall|j: int| 0 <= j < extensions.len() ==> (#[trigger] extensions[j]).oid != oid
}

/// The first extension with an identifier is the one that counts.
pub proof fn first_extension_counts(extensions: Seq<ExtensionView>, oid: Seq<u8>, k: int)
    ensures
        first_at(extensions, oid, k) ==> extension_named(extensions, Some(oid)) == Some(
            extensions[k],
        ),
        absent(extensions, oid) ==> extension_named(extensions, Some(oid)) is None,
    decreases extensions.len(),
{
    if extensions.len() > 0 {
        let rest = extensions.drop_first();
        first_extension_counts(rest, oid, k - 1);
        if first_at(extensions, oid, k) && k > 0 {
            assert(extensions[0].oid != oid);
            assert forall|j: int| 0 <= j < k - 1 implies (#[trigger] rest[j]).oid != oid by {
                assert(extensions[j + 1].oid != oid);
            }
        }
        if absent(extensions, oid) {
            assert(extensions[0].oid != oid);
            assert forall|j: int| 0 <= j < rest.len() implies (#[trigger] rest[j]).oid != oid by {
                assert(extensions[j + 1].oid != oid);
            }
        }
    }
}

/// The reason is the one that the first extension 2.5.29.21 of an entry gives,
/// in an ENUMERATED of one byte and of the codes that exist; there is none
/// where the entry has no such extension or the extension no such value.
pub open spec fn reason_is_said(extensions: Seq<ExtensionView>, reason: Option<u8>) -> bool {
    let oid = seq![0x55u8, 0x1d, 0x15];
    &&& absent(extensions, oid) ==> reason is None
    &&& forall|k: int| #[trigger]
        first_at(extensions, oid, k) ==> {
            let value = extensions[k].value;
            match reason {
                Some(code) => value == seq![0x0au8, 1u8, code] && code <= 10 && code != 7,
                None => !(value.len() == 3 && value[0] == 0x0a && value[1] == 1 && value[2] <= 10
                    && value[2] != 7),
            }
        }
}

proof fn reason_is_found(extensions: Seq<ExtensionView>)
    ensures
        reason_is_said(extensions, crate::ocsp::reason_in(extensions)),
{
    crate::identifiers::crl_reasons_is_known();
    let oid = seq![0x55u8, 0x1d, 0x15];
    first_extension_counts(extensions, oid, 0);
    assert forall|k: int| #[trigger] first_at(extensions, oid, k) implies {
        let value = extensions[k].value;
        match crate::ocsp::reason_in(extensions) {
            Some(code) => value == seq![0x0au8, 1u8, code] && code <= 10 && code != 7,
            None => !(value.len() == 3 && value[0] == 0x0a && value[1] == 1 && value[2] <= 10
                && value[2] != 7),
        }
    } by {
        first_extension_counts(extensions, oid, k);
        let value = extensions[k].value;
        if let Some(code) = crate::ocsp::reason_in(extensions) {
            assert(value =~= seq![0x0au8, 1u8, code]);
        }
    }
}

/// Each certificate is revoked at the date and for the reason of its own entry,
/// whatever other entries the list has; where a number occurs again, the last
/// entry counts.
pub proof fn each_entry_speaks_for_its_own(entries: Seq<RevokedEntryView>, i: int)
    requires
        0 <= i < entries.len(),
        forall|j: int| i < j < entries.len() ==> (#[trigger] entries[j]).serial
            != entries[i].serial,
    ensures
        revocations(entries).dom().contains(entries[i].serial),
        at_second(revocations(entries)[entries[i].serial].at, entries[i].revoked_at),
        reason_is_said(
            entries[i].extensions,
            revocations(entries)[entries[i].serial].reason,
        ),
    decreases entries.len(),
{
    reason_is_found(entries[i].extensions);
    if i < entries.len() - 1 {
        let shorter = entries.drop_last();
        assert(entries[entries.len() - 1].serial != entries[i].serial);
        assert forall|j: int| i < j < shorter.len() implies (#[trigger] shorter[j]).serial
            != shorter[i].serial by {
            assert(entries[j].serial != entries[i].serial);
        }
        each_entry_speaks_for_its_own(shorter, i);
    }
}

/// No certificate is revoked that has no entry.
pub proof fn nothing_else_is_revoked(entries: Seq<RevokedEntryView>, serial: Seq<u8>)
    requires
        forall|j: int| 0 <= j < entries.len() ==> (#[trigger] entries[j]).serial != serial,
    ensures
        !revocations(entries).dom().contains(serial),
    decreases entries.len(),
{
    if entries.len() > 0 {
        let shorter = entries.drop_last();
        assert(entries[entries.len() - 1].serial != serial);
        assert forall|j: int| 0 <= j < shorter.len() implies (#[trigger] shorter[j]).serial
            != serial by {
            assert(entries[j].serial != serial);
        }
        nothing_else_is_revoked(shorter, serial);
    }
}

/// The status of a certificate that a list revokes: revoked, at the date and for
/// the reason of its last entry, even where its number is listed as issued.
pub proof fn revoked_status_is_that_of_the_entry(
    entries: Seq<RevokedEntryView>,
    issued: Seq<Seq<u8>>,
    this_update: nat,
    next_update: Option<nat>,
    now: u128,
    i: int,
)
    requires
        0 <= i < entries.len(),
        forall|j: int| i < j < entries.len() ==> (#[trigger] entries[j]).serial
            != entries[i].serial,
    ensures
        ({
            let s = snapshot_of(entries, issued, this_update, next_update, now);
            status_of(s, entries[i].serial) matches CertStatus::Revoked { at, reason } && at_second(
                at,
                entries[i].revoked_at,
            ) && reason_is_said(entries[i].extensions, reason)
        }),
{
    each_entry_speaks_for_its_own(entries, i);
}

/// The status of a certificate that a list does not revoke: good exactly where
/// its number is among the issued ones, else unknown.
pub proof fn good_is_issued_and_not_revoked(
    entries: Seq<RevokedEntryView>,
    issued: Seq<Seq<u8>>,
    this_update: nat,
    next_update: Option<nat>,
    now: u128,
    serial: Seq<u8>,
)
    requires
        forall|j: int| 0 <= j < entries.len() ==> (#[trigger] entries[j]).serial != serial,
    ensures
        ({
            let s = snapshot_of(entries, issued, this_update, next_update, now);
            &&& issued.contains(serial) ==> status_of(s, serial) == CertStatus::Good
            &&& !issued.contains(serial) ==> status_of(s, serial) == CertStatus::Unknown
        }),
{
    nothing_else_is_revoked(entries, serial);
}

/// The status of a certificate depends on its own entries alone: two lists whose
/// last entries for a number are the same say the same of it.
pub proof fn other_entries_do_not_matter(
    a: Seq<RevokedEntryView>,
    b: Seq<RevokedEntryView>,
    i: int,
    j: int,
)
    requires
        0 <= i < a.len(),
        0 <= j < b.len(),
        a[i] == b[j],
        forall|k: int| i < k < a.len() ==> (#[trigger] a[k]).serial != a[i].serial,
        forall|k: int| j < k < b.len() ==> (#[trigger] b[k]).serial != b[j].serial,
    ensures
        revocations(a)[a[i].serial] == revocations(b)[b[j].serial],
{
    last_entry_counts(a, i);
    last_entry_counts(b, j);
}

proof fn last_entry_counts(entries: Seq<RevokedEntryView>, i: int)
    requires
        0 <= i < entries.len(),
        forall|j: int| i < j < entries.len() ==> (#[trigger] entries[j]).serial
            != entries[i].serial,
    ensures
        revocations(entries).dom().contains(entries[i].serial),
        revocations(entries)[entries[i].serial] == crate::ocsp::revocation_in(entries[i]),
    decreases entries.len(),
{
    if i < entries.len() - 1 {
        let shorter = entries.drop_last();
        assert(entries[entries.len() - 1].serial != entries[i].serial);
        assert forall|j: int| i < j < shorter.len() implies (#[trigger] shorter[j]).serial
            != shorter[i].serial by {
            assert(entries[j].serial != entries[i].serial);
        }
        last_entry_counts(shorter, i);
    }
}

/// A list is dated as it says: from its own date until its own next one, and the
/// epoch where it gives none.
pub proof fn list_is_dated_as_it_says(
    entries: Seq<RevokedEntryView>,
    issued: Seq<Seq<u8>>,
    this_update: nat,
    next_update: Option<nat>,
    now: u128,
)
    ensures
        ({
            let s = snapshot_of(entries, issued, this_update, next_update, now);
            &&& at_second(s.this_update, this_update)
            &&& next_update matches Some(n) ==> at_second(s.next_update, n)
            &&& next_update is None ==> s.next_update.nanos == 0
            &&& s.last_fetch == Some(now)
        }),
{
}

/// A list is taken in only if the issuer signed it, and then in whole: its own
/// entries, the numbers of its extension of issued ones, its own dates, and the
/// time at which it was read.
pub proof fn list_is_signed_and_whole(
    s: CrlSnapshot,
    der: Seq<u8>,
    issuer: CertificateView,
    now: u128,
    k: int,
)
    requires
        reads_snapshot(Ok(s), der, issuer, now),
    ensures
        revocation_list_of(der) matches Ok(l) && {
            &&& rsa_signature_fault(
                issuer.public_key_info,
                sha256_digest(l.tbs),
                l.signature,
            ) is None
            &&& !absent(l.extensions, issued_serials_oid())
            &&& first_at(l.extensions, issued_serials_oid(), k) ==> (serials_of(
                l.extensions[k].value,
            ) matches Ok(issued) && forall|n: Seq<u8>| #[trigger]
                s@.issued.contains(n) <==> issued.contains(n))
            &&& revoked_entries_of(der) matches Some(entries) && s@.revoked == revocations(entries)
            &&& at_second(s@.this_update, l.this_update)
            &&& l.next_update matches Some(n) ==> at_second(s@.next_update, n)
            &&& s@.last_fetch == Some(now)
        },
{
    crate::identifiers::crl_issued_serials_is_known();
    let l = revocation_list_of(der)->Ok_0;
    first_extension_counts(l.extensions, issued_serials_oid(), k);
}

/// The identifier 1.3.6.1.4.1.0.1.3.
pub open spec fn issued_serials_oid() -> Seq<u8> {
    seq![0x2bu8, 6, 1, 4, 1, 0, 1, 3]
}

/// A list that is signed by the issuer and carries the issued numbers is taken
/// in; any other is refused, and what is refused says why.
pub proof fn list_is_refused_for_a_cause(
    r: Result<CrlSnapshot, OcspError>,
    der: Seq<u8>,
    issuer: CertificateView,
    now: u128,
    k: int,
)
    requires
        reads_snapshot(r, der, issuer, now),
    ensures
        revocation_list_of(der) is Err ==> (r matches Err(OcspError::InvalidCrl(_))),
        revocation_list_of(der) matches Ok(l) ==> {
            let signed = rsa_signature_fault(
                issuer.public_key_info,
                sha256_digest(l.tbs),
                l.signature,
            ) is None;
            &&& !signed ==> (r matches Err(OcspError::InvalidCrlSignature(_)))
            &&& signed && absent(l.extensions, issued_serials_oid()) ==> (
            r matches Err(OcspError::InvalidCrl(_)))
            &&& signed && first_at(l.extensions, issued_serials_oid(), k) && serials_of(
                l.extensions[k].value,
            ) is Err ==> (r matches Err(OcspError::Der(_)))
            &&& signed && first_at(l.extensions, issued_serials_oid(), k) && serials_of(
                l.extensions[k].value,
            ) is Ok ==> r is Ok
        },
{
    crate::identifiers::crl_issued_serials_is_known();
    if revocation_list_of(der) is Ok {
        let l = revocation_list_of(der)->Ok_0;
        first_extension_counts(l.extensions, issued_serials_oid(), k);
    }
}

/// The step is an answer of five bytes that carries an outcome alone.
pub open spec fn outcome_alone(step: Step, code: u8) -> bool {
    step matches Step::Reply { der } && der@ == seq![0x30u8, 3, 0x0a, 1, code]
}

/// The list was read, and no more than twice the time between two refreshes ago.
pub open spec fn recent(s: SnapshotView, now: u128, crl_refresh: u128) -> bool {
    s.last_fetch matches Some(t) && now - t <= 2 * crl_refresh
}

/// The identifier names an issuer: the digests of the issuer's name and of the
/// bits of its key, with SHA-1 or with SHA-256.
pub open spec fn names_issuer(id: CertIdView, issuer: CertificateView) -> bool {
    public_key_bits_of(issuer.public_key_info) matches Some(key) && {
        ||| id.algorithm == "1.3.14.3.2.26"@ && id.name_hash == sha1_digest(issuer.subject)
            && id.key_hash == sha1_digest(key)
        ||| id.algorithm == "2.16.840.1.101.3.4.2.1"@ && id.name_hash == sha256_digest(
            issuer.subject,
        ) && id.key_hash == sha256_digest(key)
    }
}

/// The digests of the identifier are of an algorithm that can be answered for.
pub open spec fn known_algorithm(id: CertIdView, issuer: CertificateView) -> bool {
    public_key_bits_of(issuer.public_key_info) is Some && (id.algorithm == "1.3.14.3.2.26"@
        || id.algorithm == "2.16.840.1.101.3.4.2.1"@)
}

/// The encoding of an outcome is five bytes.
proof fn outcome_is_five_bytes(status: OcspResponseStatus)
    ensures
        crate::ocsp_response::bare_response(status) == seq![0x30u8, 3, 0x0a, 1, status.code()],
{
    let code: Seq<u8> = seq![status.code()];
    assert(tlv(0x0a, code) =~= seq![0x0au8, 1, status.code()]);
    assert(crate::ocsp_response::bare_response(status) =~= seq![
        0x30u8,
        3,
        0x0a,
        1,
        status.code(),
    ]);
}

/// Every request that cannot be answered for is told why: what is no request is
/// malformed, what asks about another authority is unauthorized, and what comes
/// while the list is too old is told to try later. Nothing of the responder
/// changes then.
pub proof fn refusals_say_why(
    before: Responder,
    after: Responder,
    request: Seq<u8>,
    now: Moment,
    step: Step,
)
    requires
        handles(before, after, request, now, step),
    ensures
        ids_asked(request) is None ==> outcome_alone(step, 1) && after == before,
        ids_asked(request) matches Some(ids) ==> {
            &&& ids.len() == 0 ==> outcome_alone(step, 1) && after == before
            &&& ids.len() > 0 && !known_algorithm(ids[0], before.opts.issuer@) ==> outcome_alone(
                step,
                1,
            ) && after == before
            &&& ids.len() > 0 && known_algorithm(ids[0], before.opts.issuer@) && !names_issuer(
                ids[0],
                before.opts.issuer@,
            ) ==> outcome_alone(step, 6) && after == before
            &&& ids.len() > 0 && names_issuer(ids[0], before.opts.issuer@) && !recent(
                before.snapshot@,
                now.ticks,
                before.opts.crl_refresh,
            ) ==> outcome_alone(step, 3) && after == before
        },
{
    match ids_asked(request) {
        None => reply_is_five_bytes(step, OcspResponseStatus::MalformedRequest),
        Some(ids) => if ids.len() == 0 {
            reply_is_five_bytes(step, OcspResponseStatus::MalformedRequest);
        } else {
            issuer_is_known_by_name_and_key(before.opts.issuer@, ids[0].algorithm);
            what_is_known_is_recent(
                before.snapshot@,
                ids[0].serial,
                now.ticks,
                before.opts.crl_refresh,
            );
            if !known_algorithm(ids[0], before.opts.issuer@) {
                reply_is_five_bytes(step, OcspResponseStatus::MalformedRequest);
            } else if !names_issuer(ids[0], before.opts.issuer@) {
                reply_is_five_bytes(step, OcspResponseStatus::Unauthorized);
            } else if !recent(before.snapshot@, now.ticks, before.opts.crl_refresh) {
                reply_is_five_bytes(step, OcspResponseStatus::TryLater);
            }
        },
    }
}

proof fn reply_is_five_bytes(step: Step, status: OcspResponseStatus)
    requires
        crate::ocsp::replies(step, status),
    ensures
        outcome_alone(step, status.code()),
{
    outcome_is_five_bytes(status);
}

proof fn digest_algorithms_differ()
    ensures
        "1.3.14.3.2.26"@ != "2.16.840.1.101.3.4.2.1"@,
{
    reveal_strlit("1.3.14.3.2.26");
    reveal_strlit("2.16.840.1.101.3.4.2.1");
    assert("1.3.14.3.2.26"@.len() == 13);
    assert("2.16.840.1.101.3.4.2.1"@.len() == 22);
}

/// The bytes are the encoding of a point in time, rounded down to the second:
/// fifteen characters of a date that is at that second.
pub open spec fn encodes_time(bytes: Seq<u8>, t: Timestamp) -> bool {
    exists|d: Date|
        {
            &&& d.valid()
            &&& #[trigger] d.unix_seconds() == t.nanos as int / 1_000_000_000
            &&& bytes == seq![0x18u8, 15] + date_text(d)
        }
}

/// `YYYYMMDDHHMMSSZ`.
pub open spec fn date_text(d: Date) -> Seq<u8> {
    seq![
        (48 + d.year / 1000) as u8,
        (48 + d.year / 100 % 10) as u8,
        (48 + d.year / 10 % 10) as u8,
        (48 + d.year % 10) as u8,
        (48 + d.month / 10) as u8,
        (48 + d.month % 10) as u8,
        (48 + d.day / 10) as u8,
        (48 + d.day % 10) as u8,
        (48 + d.hour / 10) as u8,
        (48 + d.hour % 10) as u8,
        (48 + d.minute / 10) as u8,
        (48 + d.minute % 10) as u8,
        (48 + d.second / 10) as u8,
        (48 + d.second % 10) as u8,
        90u8,
    ]
}

/// The bytes are the encoding of a status: `80 00` for good, `82 00` for
/// unknown, and for revoked the date, followed by the reason where there is one.
pub open spec fn encodes_status(bytes: Seq<u8>, s: CertStatus) -> bool {
    match s {
        CertStatus::Good => bytes == seq![0x80u8, 0],
        CertStatus::Unknown => bytes == seq![0x82u8, 0],
        CertStatus::Revoked { at, reason } => exists|date: Seq<u8>|
            #[trigger] encodes_time(date, at) && bytes == match reason {
                Some(code) => seq![0xa1u8, 22] + date + seq![0xa0u8, 3, 0x0a, 1, code],
                None => seq![0xa1u8, 17] + date,
            },
    }
}

/// The signed part: who answers, when, and of the one certificate that is asked
/// about its identifier, its status, and from when until when that is known.
pub open spec fn states(
    data: Seq<u8>,
    responder: Seq<u8>,
    produced_at: Timestamp,
    id: Seq<u8>,
    u: Update,
) -> bool {
    exists|at: Seq<u8>, status: Seq<u8>, since: Seq<u8>, until: Seq<u8>|
        {
            &&& #[trigger] encodes_time(at, produced_at)
            &&& #[trigger] encodes_status(status, u.status)
            &&& #[trigger] encodes_time(since, u.this_update)
            &&& #[trigger] encodes_time(until, u.next_update)
            &&& data == tlv(
                0x30,
                tlv(0xa1, responder) + at + tlv(
                    0x30,
                    tlv(0x30, id + status + since + tlv(0xa0, until)),
                ),
            )
        }
}

proof fn time_is_encoded(t: Timestamp)
    requires
        crate::calendar::encodable(t),
    ensures
        encodes_time(crate::calendar::time_encoding(t), t),
        crate::calendar::time_encoding(t).len() == 17,
{
    crate::calendar::every_second_has_a_date(t);
    let d = choose|d: Date| crate::calendar::is_date_of(d, t);
    assert(crate::calendar::is_date_of(d, t));
    date_is_spelled_out(d);
    date_is_tagged(date_text(d));
    assert(d.unix_seconds() == t.nanos as int / 1_000_000_000);
}

proof fn date_is_tagged(text: Seq<u8>)
    requires
        text.len() == 15,
    ensures
        tlv(0x18, text) == seq![0x18u8, 15] + text,
{
    assert(tlv(0x18, text) =~= seq![0x18u8, 15] + text);
}

/// A date is written in fifteen characters, digit by digit.
pub proof fn date_is_spelled_out(d: Date)
    requires
        d.valid(),
    ensures
        d.text() == date_text(d),
{
    let y = d.year as int;
    assert(y / 100 / 10 == y / 1000);
    assert(y % 100 / 10 == y / 10 % 10);
    assert(y % 100 % 10 == y % 10);
    let a = d.text();
    let b = date_text(d);
    assert(a.len() == 15);
    assert(a[0] == b[0] && a[1] == b[1] && a[2] == b[2] && a[3] == b[3]);
    assert(a[4] == b[4] && a[5] == b[5] && a[6] == b[6] && a[7] == b[7]);
    assert(a[8] == b[8] && a[9] == b[9] && a[10] == b[10] && a[11] == b[11]);
    assert(a[12] == b[12] && a[13] == b[13] && a[14] == b[14]);
    assert(a =~= b);
}

proof fn status_is_encoded(s: CertStatus)
    requires
        crate::ocsp_response::status_encodable(s),
    ensures
        encodes_status(crate::ocsp_response::cert_status_encoding(s), s),
{
    let bytes = crate::ocsp_response::cert_status_encoding(s);
    match s {
        CertStatus::Good => {
            assert(bytes =~= seq![0x80u8, 0]);
        },
        CertStatus::Unknown => {
            assert(bytes =~= seq![0x82u8, 0]);
        },
        CertStatus::Revoked { at, reason } => {
            time_is_encoded(at);
            let date = crate::calendar::time_encoding(at);
            match reason {
                Some(code) => {
                    let inner: Seq<u8> = seq![code];
                    assert(tlv(0x0a, inner) =~= seq![0x0au8, 1, code]);
                    assert(tlv(0xa0, tlv(0x0a, inner)) =~= seq![0xa0u8, 3, 0x0a, 1, code]);
                    assert(bytes =~= seq![0xa1u8, 22] + date + seq![0xa0u8, 3, 0x0a, 1, code]);
                },
                None => {
                    assert(bytes =~= seq![0xa1u8, 17] + date);
                },
            }
        },
    }
}

/// What is signed states what is known, of the certificate that was asked about
/// and in the responder's name, and the digest is that of what is signed.
pub proof fn signed_part_states_what_is_known(
    responder: CertificateView,
    id: Seq<u8>,
    u: Update,
    produced_at: Timestamp,
    step: Step,
)
    requires
        answers(responder, id, u, produced_at, step),
    ensures
        step matches Step::Sign { data, digest } ==> states(
            data@,
            responder.subject,
            produced_at,
            id,
            u,
        ) && digest@ == sha256_digest(data@),
        !(step is Sign) ==> outcome_alone(step, 2),
{
    outcome_is_five_bytes(OcspResponseStatus::InternalError);
    if let Step::Sign { data, digest } = step {
        if crate::ocsp_response::data_encodable(responder.subject, id, u, produced_at) {
            signed_part_is_spelled_out(responder.subject, id, u, produced_at);
        }
    }
}

proof fn signed_part_is_spelled_out(
    responder: Seq<u8>,
    id: Seq<u8>,
    u: Update,
    produced_at: Timestamp,
)
    requires
        crate::ocsp_response::data_encodable(responder, id, u, produced_at),
    ensures
        states(response_data(responder, id, u, produced_at), responder, produced_at, id, u),
{
    time_is_encoded(produced_at);
    time_is_encoded(u.this_update);
    time_is_encoded(u.next_update);
    status_is_encoded(u.status);
    let at = crate::calendar::time_encoding(produced_at);
    let status = crate::ocsp_response::cert_status_encoding(u.status);
    let since = crate::calendar::time_encoding(u.this_update);
    let until = crate::calendar::time_encoding(u.next_update);
    assert(encodes_time(at, produced_at) && encodes_status(status, u.status) && encodes_time(
        since,
        u.this_update,
    ) && encodes_time(until, u.next_update));
}

/// The dates that an answer gives can be written.
pub open spec fn writable(u: Update, produced_at: Timestamp) -> bool {
    &&& 0 <= u.this_update.nanos <= 253_402_300_799_999_999_999
    &&& 0 <= u.next_update.nanos <= 253_402_300_799_999_999_999
    &&& 0 <= produced_at.nanos <= 253_402_300_799_999_999_999
    &&& u.status matches CertStatus::Revoked { at, .. } ==> 0 <= at.nanos
        <= 253_402_300_799_999_999_999
}

/// What the list says is answered: where the identifier names the issuer and the
/// list is recent, the status of the list is the one that is signed, dated as
/// the list is. Only what is unknown may first call for a refresh, and only if
/// none was made on demand in the last two seconds.
pub proof fn status_of_the_list_is_answered(
    before: Responder,
    after: Responder,
    request: Seq<u8>,
    now: Moment,
    step: Step,
    ids: Seq<CertIdView>,
)
    requires
        handles(before, after, request, now, step),
        ids_asked(request) == Some(ids),
        ids.len() > 0,
        names_issuer(ids[0], before.opts.issuer@),
        recent(before.snapshot@, now.ticks, before.opts.crl_refresh),
    ensures
        ({
            let u = Update {
                status: status_of(before.snapshot@, ids[0].serial),
                this_update: before.snapshot@.this_update,
                next_update: before.snapshot@.next_update,
            };
            let free = before.last_on_demand_refresh matches Some(t) ==> now.ticks - t
                >= 2_000_000_000;
            &&& step is Refresh <==> u.status is Unknown && free
            &&& step matches Step::Refresh { id, known } ==> id@ == ids[0] && known == u
                && after.last_on_demand_refresh == Some(now.ticks)
            &&& step matches Step::Sign { data, digest } ==> states(
                data@,
                before.opts.certificate@.subject,
                now.wall,
                ids[0].encoding,
                u,
            ) && digest@ == sha256_digest(data@)
            &&& writable(u, now.wall) && response_data(
                before.opts.certificate@.subject,
                ids[0].encoding,
                u,
                now.wall,
            ).len() <= MAX_CONTENT && !(u.status is Unknown && free) ==> step is Sign
            &&& after.snapshot == before.snapshot && after.opts == before.opts
            &&& !(step is Refresh) ==> after == before
        }),
{
    digest_algorithms_differ();
    let u = Update {
        status: status_of(before.snapshot@, ids[0].serial),
        this_update: before.snapshot@.this_update,
        next_update: before.snapshot@.next_update,
    };
    if crate::ocsp_response::data_encodable(
        before.opts.certificate@.subject,
        ids[0].encoding,
        u,
        now.wall,
    ) {
        signed_part_is_spelled_out(
            before.opts.certificate@.subject,
            ids[0].encoding,
            u,
            now.wall,
        );
    }
}

/// A signed answer hands on what was signed, the signature and the responder's
/// certificate, none of them changed.
pub proof fn signed_answer_is_whole(data: Seq<u8>, signature: Seq<u8>, certificate: Seq<u8>)
    ensures
        basic_response(data, signature, certificate) == tlv(
            0x30,
            data + tlv(
                0x30,
                seq![0x06u8, 9, 0x2a, 0x86, 0x48, 0x86, 0xf7, 0x0d, 1, 1, 0x0b],
            ) + tlv(0x03, seq![0u8] + signature) + tlv(0xa0, tlv(0x30, certificate)),
        ),
{
    rsa_is_identified();
}

proof fn rsa_is_identified()
    ensures
        tlv(0x06, crate::ocsp_response::sha256_with_rsa()) == seq![
            0x06u8,
            9,
            0x2a,
            0x86,
            0x48,
            0x86,
            0xf7,
            0x0d,
            1,
            1,
            0x0b,
        ],
{
    assert(tlv(0x06, crate::ocsp_response::sha256_with_rsa()) =~= seq![
        0x06u8,
        9,
        0x2a,
        0x86,
        0x48,
        0x86,
        0xf7,
        0x0d,
        1,
        1,
        0x0b,
    ]);
}

/// A signed answer is a successful outcome of the type 1.3.6.1.5.5.7.48.1.1,
/// around the signed part.
pub proof fn signed_answer_is_a_basic_one(data: Seq<u8>, signature: Seq<u8>, certificate: Seq<u8>)
    ensures
        successful_response(data, signature, certificate) == tlv(
            0x30,
            seq![0x0au8, 1, 0] + tlv(
                0xa0,
                tlv(
                    0x30,
                    seq![0x06u8, 9, 0x2b, 6, 1, 5, 5, 7, 0x30, 1, 1] + tlv(
                        0x04,
                        basic_response(data, signature, certificate),
                    ),
                ),
            ),
        ),
{
    let code: Seq<u8> = seq![0u8];
    assert(tlv(0x0a, code) =~= seq![0x0au8, 1, 0]);
    let kind: Seq<u8> = seq![0x2bu8, 6, 1, 5, 5, 7, 0x30, 1, 1];
    assert(crate::ocsp_response::basic_response_type() =~= kind);
    assert(tlv(0x06, kind) =~= seq![0x06u8, 9, 0x2b, 6, 1, 5, 5, 7, 0x30, 1, 1]);
}

/// After a refresh the list that is there now is answered from, where it is
/// recent; else what was known before.
pub proof fn what_is_known_is_recent(s: SnapshotView, serial: Seq<u8>, now: u128, refresh: u128)
    ensures
        known_of(s, serial, now, refresh) matches Some(u) ==> recent(s, now, refresh) && u.status
            == status_of(s, serial) && u.this_update == s.this_update && u.next_update
            == s.next_update,
        recent(s, now, refresh) && (status_of(s, serial) matches CertStatus::Revoked { at, .. }
            ==> 0 <= at.nanos <= 253_402_300_799_999_999_999) ==> known_of(
            s,
            serial,
            now,
            refresh,
        ) is Some,
        !recent(s, now, refresh) ==> known_of(s, serial, now, refresh) is None,
{
}

/// The digests of an issuer are of its name and of the bits of its key.
pub proof fn issuer_is_known_by_name_and_key(issuer: CertificateView, algorithm: Seq<char>)
    ensures
        public_key_bits_of(issuer.public_key_info) matches Some(key) ==> {
            &&& algorithm == "1.3.14.3.2.26"@ ==> issuer_hashes(issuer, algorithm) == Some(
                (sha1_digest(issuer.subject), sha1_digest(key)),
            )
            &&& algorithm == "2.16.840.1.101.3.4.2.1"@ ==> issuer_hashes(issuer, algorithm)
                == Some((sha256_digest(issuer.subject), sha256_digest(key)))
        },
        algorithm != "1.3.14.3.2.26"@ && algorithm != "2.16.840.1.101.3.4.2.1"@ ==> issuer_hashes(
            issuer,
            algorithm,
        ) is None,
{
    digest_algorithms_differ();
}

/// The codes of the outcomes (RFC 6960 §4.2.1).
pub proof fn outcomes_have_codes()
    ensures
        OcspResponseStatus::Successful.code() == 0,
        OcspResponseStatus::MalformedRequest.code() == 1,
        OcspResponseStatus::InternalError.code() == 2,
        OcspResponseStatus::TryLater.code() == 3,
        OcspResponseStatus::SigRequired.code() == 5,
        OcspResponseStatus::Unauthorized.code() == 6,
{
}

} // verus!
