//! What rows of the database mean, and what the outcome of a statement means
//! for the store.
use vstd::prelude::*;

use crate::castore::{
    optional_bytes, Certificate, CertificateStatus, CertificateView, Request, RequestState,
    RequestView, Serial, StoreError,
};
use crate::clock::{Duration, Timestamp};
use crate::crypto::{hex_decode, hex_encode};
use crate::text::{concat2, debug_string, signed_decimal_string, str_eq};

verus! {

/// The key of a serial number: its bytes in hexadecimal.
pub fn serial_key(s: &[u8]) -> (r: String)
    ensures
        r@ == crate::crypto::hex_text(s@),
{
    hex_encode(s)
}

/// The word that is stored for a status.
pub open spec fn status_word(s: CertificateStatus) -> Seq<char> {
    match s {
        CertificateStatus::Reserved => "reserved"@,
        CertificateStatus::Issued => "issued"@,
        CertificateStatus::Revoked => "revoked"@,
    }
}

/// Gives the word that is stored for a status.
pub fn status_str(s: CertificateStatus) -> (r: &'static str)
    ensures
        r@ == status_word(s),
{
    match s {
        CertificateStatus::Reserved => "reserved",
        CertificateStatus::Issued => "issued",
        CertificateStatus::Revoked => "revoked",
    }
}

/// The status that a stored word stands for.
pub open spec fn status_of(word: Seq<char>) -> Option<CertificateStatus> {
    if word == "reserved"@ {
        Some(CertificateStatus::Reserved)
    } else if word == "issued"@ {
        Some(CertificateStatus::Issued)
    } else if word == "revoked"@ {
        Some(CertificateStatus::Revoked)
    } else {
        None
    }
}

/// An error of the store with a text.
pub open spec fn is_other(e: StoreError, text: Seq<char>) -> bool {
    e matches StoreError::Other(t) && t@ == text
}

/// What is said about a word that is no status.
pub open spec fn status_fault(word: Seq<char>) -> Seq<char> {
    "castore: statut de certificat illisible en base: "@ + crate::text::debug_text(word)
}

/// Reads a stored status.
pub fn status_from_str(s: &str) -> (r: Result<CertificateStatus, StoreError>)
    ensures
        match r {
            Ok(status) => status_of(s@) == Some(status),
            Err(e) => status_of(s@) is None && is_other(e, status_fault(s@)),
        },
{
    if str_eq(s, "reserved") {
        Ok(CertificateStatus::Reserved)
    } else if str_eq(s, "issued") {
        Ok(CertificateStatus::Issued)
    } else if str_eq(s, "revoked") {
        Ok(CertificateStatus::Revoked)
    } else {
        Err(
            StoreError::Other(
                concat2(
                    "castore: statut de certificat illisible en base: ",
                    debug_string(s).as_str(),
                ),
            ),
        )
    }
}

/// A stored status is read back as it was.
pub proof fn status_round_trip(s: CertificateStatus)
    ensures
        status_of(status_word(s)) == Some(s),
{
    reveal_strlit("reserved");
    reveal_strlit("issued");
    reveal_strlit("revoked");
    assert("reserved"@.len() == 8 && "issued"@.len() == 6 && "revoked"@.len() == 7);
}

/// The state that a stored word stands for.
pub open spec fn state_of(word: Seq<char>) -> Option<RequestState> {
    if word == "PENDING"@ {
        Some(RequestState::Pending)
    } else if word == "APPROVED"@ {
        Some(RequestState::Approved)
    } else if word == "ISSUED"@ {
        Some(RequestState::Issued)
    } else if word == "REJECTED"@ {
        Some(RequestState::Rejected)
    } else {
        None
    }
}

/// What is said about a word that is no state.
pub open spec fn state_fault(word: Seq<char>) -> Seq<char> {
    "castore: état de demande illisible en base: "@ + crate::text::debug_text(word)
}

/// Reads a stored state.
pub fn state_from_str(s: &str) -> (r: Result<RequestState, StoreError>)
    ensures
        match r {
            Ok(state) => state_of(s@) == Some(state),
            Err(e) => state_of(s@) is None && is_other(e, state_fault(s@)),
        },
{
    if str_eq(s, "PENDING") {
        Ok(RequestState::Pending)
    } else if str_eq(s, "APPROVED") {
        Ok(RequestState::Approved)
    } else if str_eq(s, "ISSUED") {
        Ok(RequestState::Issued)
    } else if str_eq(s, "REJECTED") {
        Ok(RequestState::Rejected)
    } else {
        Err(
            StoreError::Other(
                concat2(
                    "castore: état de demande illisible en base: ",
                    debug_string(s).as_str(),
                ),
            ),
        )
    }
}

/// A stored state is read back as it was.
pub proof fn state_round_trip(s: RequestState)
    ensures
        state_of(s.word()) == Some(s),
{
    reveal_strlit("PENDING");
    reveal_strlit("APPROVED");
    reveal_strlit("ISSUED");
    reveal_strlit("REJECTED");
    assert("PENDING"@.len() == 7 && "ISSUED"@.len() == 6);
    assert("APPROVED"@.len() == 8 && "REJECTED"@.len() == 8);
    assert("APPROVED"@[0] == 'A' && "REJECTED"@[0] == 'R');
}

/// What is said about a key that is not hexadecimal.
pub open spec fn serial_fault(hex: Seq<char>) -> Seq<char> {
    "castore: numéro de série illisible en base: "@ + crate::crypto::hex_fault(hex)
}

/// Reads a stored serial number.
pub fn serial_from_hex(s: &str) -> (r: Result<Serial, StoreError>)
    ensures
        match r {
            Ok(serial) => crate::crypto::is_hex(s@) && serial@ == crate::crypto::hex_bytes(s@),
            Err(e) => !crate::crypto::is_hex(s@) && is_other(e, serial_fault(s@)),
        },
{
    match hex_decode(s) {
        Ok(bytes) => Ok(bytes),
        Err(fault) => Err(
            StoreError::Other(
                concat2("castore: numéro de série illisible en base: ", fault.as_str()),
            ),
        ),
    }
}

/// Reads the stored serial numbers of all certificates, up to the first that
/// cannot be read.
pub fn serials_from_hex(keys: &Vec<String>) -> (r: Result<Vec<Serial>, StoreError>)
    ensures
        match r {
            Ok(serials) => {
                &&& serials@.len() == keys@.len()
                &&& forall|i: int|
                    0 <= i < keys@.len() ==> crate::crypto::is_hex((#[trigger] keys@[i])@)
                        && serials@[i]@ == crate::crypto::hex_bytes(keys@[i]@)
            },
            Err(e) => exists|i: int|
                {
                    &&& 0 <= i < keys@.len()
                    &&& !crate::crypto::is_hex((#[trigger] keys@[i])@)
                    &&& forall|j: int| 0 <= j < i ==> crate::crypto::is_hex((#[trigger] keys@[j])@)
                    &&& is_other(e, crate::crypto::hex_fault(keys@[i]@))
                },
        },
{
    let mut out: Vec<Serial> = Vec::new();
    let mut i: usize = 0;
    while i < keys.len()
        invariant
            i <= keys@.len(),
            out@.len() == i,
            forall|j: int|
                0 <= j < i ==> crate::crypto::is_hex((#[trigger] keys@[j])@) && out@[j]@
                    == crate::crypto::hex_bytes(keys@[j]@),
        decreases keys.len() - i,
    {
        match hex_decode(keys[i].as_str()) {
            Ok(bytes) => out.push(bytes),
            Err(fault) => {
                return Err(StoreError::Other(fault));
            },
        }
        i += 1;
    }
    Ok(out)
}

/// A row of the register of certificates.
pub struct CertificateRow {
    pub serial_hex: String,
    pub profile: String,
    pub subject_dn: String,
    pub issuer_dn: String,
    pub not_before: Option<Timestamp>,
    pub not_after: Option<Timestamp>,
    pub der: Option<Vec<u8>>,
    pub status: String,
    pub revoked_at: Option<Timestamp>,
    pub revocation_reason: i32,
    pub request_transaction_id: String,
}

/// The time of a column, the epoch where it is empty.
pub open spec fn time_or_epoch(t: Option<Timestamp>) -> Timestamp {
    match t {
        Some(t) => t,
        None => Timestamp { nanos: 0 },
    }
}

/// The bytes of a column, none where it is empty.
pub open spec fn bytes_or_none(b: Option<Vec<u8>>) -> Seq<u8> {
    match b {
        Some(b) => b@,
        None => seq![],
    }
}

/// The line that a row stands for.
pub open spec fn line_of(row: CertificateRow, status: CertificateStatus) -> CertificateView {
    CertificateView {
        serial: crate::crypto::hex_bytes(row.serial_hex@),
        profile: row.profile@,
        subject_dn: row.subject_dn@,
        issuer_dn: row.issuer_dn@,
        not_before: time_or_epoch(row.not_before),
        not_after: time_or_epoch(row.not_after),
        der: bytes_or_none(row.der),
        status,
        revoked_at: row.revoked_at,
        revocation_reason: row.revocation_reason,
        request_transaction_id: row.request_transaction_id@,
    }
}

/// Reads a row of the register of certificates.
pub fn certificate_from_row(row: CertificateRow) -> (r: Result<Certificate, StoreError>)
    ensures
        match r {
            Ok(c) => {
                &&& crate::crypto::is_hex(row.serial_hex@)
                &&& status_of(row.status@) matches Some(status) && c@ == line_of(row, status)
            },
            Err(e) => if !crate::crypto::is_hex(row.serial_hex@) {
                is_other(e, serial_fault(row.serial_hex@))
            } else {
                status_of(row.status@) is None && is_other(e, status_fault(row.status@))
            },
        },
{
    let serial = match serial_from_hex(row.serial_hex.as_str()) {
        Ok(serial) => serial,
        Err(e) => return Err(e),
    };
    let status = match status_from_str(row.status.as_str()) {
        Ok(status) => status,
        Err(e) => return Err(e),
    };
    Ok(
        Certificate {
            serial,
            profile: row.profile,
            subject_dn: row.subject_dn,
            issuer_dn: row.issuer_dn,
            not_before: match row.not_before {
                Some(t) => t,
                None => Timestamp::epoch(),
            },
            not_after: match row.not_after {
                Some(t) => t,
                None => Timestamp::epoch(),
            },
            der: match row.der {
                Some(der) => der,
                None => Vec::new(),
            },
            status,
            revoked_at: row.revoked_at,
            revocation_reason: row.revocation_reason,
            request_transaction_id: row.request_transaction_id,
        },
    )
}

/// A row of the enrolment requests.
pub struct RequestRow {
    pub transaction_id: String,
    pub csr_fingerprint: String,
    pub csr_der: Vec<u8>,
    pub profile: String,
    pub subject_cn: String,
    pub state: String,
    pub created_at: Timestamp,
    pub decided_at: Option<Timestamp>,
    pub operator: String,
    pub comment: String,
    pub issued_at: Option<Timestamp>,
    pub certificate_serial_hex: Option<String>,
}

/// The serial number of a column: none where it is missing or empty.
pub open spec fn serial_of_column(hex: Option<String>) -> Option<Seq<u8>> {
    match hex {
        Some(s) if s@.len() > 0 => Some(crate::crypto::hex_bytes(s@)),
        _ => None,
    }
}

/// The serial number of a column can be read.
pub open spec fn column_readable(hex: Option<String>) -> bool {
    hex matches Some(s) ==> s@.len() == 0 || crate::crypto::is_hex(s@)
}

/// The request that a row stands for.
pub open spec fn request_of_row(row: RequestRow, state: RequestState) -> RequestView {
    RequestView {
        transaction_id: row.transaction_id@,
        csr_fingerprint: row.csr_fingerprint@,
        csr_der: row.csr_der@,
        profile: row.profile@,
        subject_cn: row.subject_cn@,
        state,
        created_at: row.created_at,
        decided_at: row.decided_at,
        operator: row.operator@,
        comment: row.comment@,
        issued_at: row.issued_at,
        certificate_serial: serial_of_column(row.certificate_serial_hex),
    }
}

/// Reads a row of the enrolment requests.
pub fn request_from_row(row: RequestRow) -> (r: Result<Request, StoreError>)
    ensures
        match r {
            Ok(q) => {
                &&& column_readable(row.certificate_serial_hex)
                &&& state_of(row.state@) matches Some(state) && q@ == request_of_row(row, state)
            },
            Err(e) => if !column_readable(row.certificate_serial_hex) {
                is_other(e, serial_fault(row.certificate_serial_hex->0@))
            } else {
                state_of(row.state@) is None && is_other(e, state_fault(row.state@))
            },
        },
{
    let certificate_serial: Option<Serial> = match &row.certificate_serial_hex {
        Some(s) => if s.as_str().is_empty() {
            None
        } else {
            match serial_from_hex(s.as_str()) {
                Ok(serial) => Some(serial),
                Err(e) => return Err(e),
            }
        },
        None => None,
    };
    let state = match state_from_str(row.state.as_str()) {
        Ok(state) => state,
        Err(e) => return Err(e),
    };
    assert(optional_bytes(certificate_serial) == serial_of_column(row.certificate_serial_hex));
    Ok(
        Request {
            transaction_id: row.transaction_id,
            csr_fingerprint: row.csr_fingerprint,
            csr_der: row.csr_der,
            profile: row.profile,
            subject_cn: row.subject_cn,
            state,
            created_at: row.created_at,
            decided_at: row.decided_at,
            operator: row.operator,
            comment: row.comment,
            issued_at: row.issued_at,
            certificate_serial,
        },
    )
}

/// What the database says about a statement that failed.
#[derive(Debug)]
pub struct SqlFault {
    /// The SQLSTATE, where the database itself refused.
    pub code: Option<String>,
    pub message: String,
}

/// SQLSTATE 23505: the only sure sign of a key that is there already.
pub open spec fn unique_violation(f: SqlFault) -> bool {
    f.code matches Some(code) && code@ == "23505"@
}

/// Tells a key that is there already from any other failure.
pub fn is_unique_violation(f: &SqlFault) -> (r: bool)
    ensures
        r == unique_violation(*f),
{
    match &f.code {
        Some(code) => str_eq(code.as_str(), "23505"),
        None => false,
    }
}

/// What an insertion means: a key that is there already is the error given for
/// it, any other failure is passed on.
pub fn insert_result(outcome: Result<(), SqlFault>, taken: StoreError) -> (r: Result<
    (),
    StoreError,
>)
    ensures
        match outcome {
            Ok(_) => r is Ok,
            Err(f) => r matches Err(e) && if unique_violation(f) {
                e == taken
            } else {
                e == StoreError::Other(f.message)
            },
        },
{
    match outcome {
        Ok(_) => Ok(()),
        Err(f) => if is_unique_violation(&f) {
            Err(taken)
        } else {
            Err(StoreError::Other(f.message))
        },
    }
}

/// What the number of completed lines means: none is a conflict, since the
/// reservation is missing or complete already.
pub fn save_certificate_result(rows_affected: u64) -> (r: Result<(), StoreError>)
    ensures
        r is Ok <==> rows_affected != 0,
        r matches Err(e) ==> e == StoreError::Conflict,
{
    if rows_affected == 0 {
        Err(StoreError::Conflict)
    } else {
        Ok(())
    }
}

/// What is left to find out after the update that revokes.
#[derive(Debug)]
pub enum RevokeStep {
    /// The certificate is revoked.
    Done,
    /// Nothing changed: the status of the line tells why.
    AskStatus,
}

/// Whether the update that revokes did so.
pub fn revoke_step(rows_affected: u64) -> (r: RevokeStep)
    ensures
        r is Done <==> rows_affected == 1,
{
    if rows_affected == 1 {
        RevokeStep::Done
    } else {
        RevokeStep::AskStatus
    }
}

/// What the status of a line means that the update left alone: not found where
/// there is none or where it is reserved, else revoked already.
pub fn revoke_result(status: Option<&str>) -> (r: Result<(), StoreError>)
    ensures
        match r {
            Ok(_) => status matches Some(s) && s@ != status_word(CertificateStatus::Reserved),
            Err(e) => {
                &&& e == StoreError::NotFound
                &&& status matches Some(s) ==> s@ == status_word(CertificateStatus::Reserved)
            },
        },
{
    match status {
        None => Err(StoreError::NotFound),
        Some(s) => if str_eq(s, "reserved") {
            Err(StoreError::NotFound)
        } else {
            Ok(())
        },
    }
}

/// What it means that an update of a request changed nothing, once it is known
/// whether the request exists.
pub fn update_request_result(exists: bool) -> (r: StoreError)
    ensures
        r == (if exists {
            StoreError::Conflict
        } else {
            StoreError::NotFound
        }),
{
    if exists {
        StoreError::Conflict
    } else {
        StoreError::NotFound
    }
}

/// The span as the database takes it: whole seconds.
pub fn interval_text(grace: Duration) -> (r: String)
    requires
        grace.nanos > i128::MIN,
    ensures
        r@ == crate::text::signed_decimal(crate::clock::whole_seconds_of(grace.nanos as int))
            + " seconds"@,
{
    concat2(signed_decimal_string(grace.whole_seconds()).as_str(), " seconds")
}

/// The key of an optional serial number.
pub fn optional_serial_key(serial: &Option<Serial>) -> (r: Option<String>)
    ensures
        match (optional_bytes(*serial), r) {
            (Some(s), Some(key)) => key@ == crate::crypto::hex_text(s),
            (None, None) => true,
            _ => false,
        },
{
    match serial {
        Some(s) => Some(serial_key(s.as_slice())),
        None => None,
    }
}

/// A stored serial number is read back as it was.
pub proof fn serial_round_trip(serial: Seq<u8>)
    ensures
        crate::crypto::is_hex(crate::crypto::hex_text(serial)),
        crate::crypto::hex_bytes(crate::crypto::hex_text(serial)) == serial,
{
    crate::crypto::hex_round_trip(serial);
}

} // verus!
