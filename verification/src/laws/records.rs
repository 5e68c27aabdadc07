//! What is stored and what is said, word for word: the words for states, the
//! meaning of rows, and the messages of errors.
use vstd::prelude::*;

use crate::castore::{CertificateStatus, RequestState, StoreError};
use crate::clock::Timestamp;
use crate::ocsp::OcspError;
use crate::raflow::RaflowError;
use crate::rows::{
    column_readable, line_of, request_of_row, serial_of_column, state_of, status_of, status_word,
    unique_violation, CertificateRow, RequestRow, SqlFault,
};

verus! {

/// Every status has its word, and every word its status; no other word is one.
pub proof fn status_words_are_fixed(word: Seq<char>)
    ensures
        status_word(CertificateStatus::Reserved) == "reserved"@,
        status_word(CertificateStatus::Issued) == "issued"@,
        status_word(CertificateStatus::Revoked) == "revoked"@,
        status_of("reserved"@) == Some(CertificateStatus::Reserved),
        status_of("issued"@) == Some(CertificateStatus::Issued),
        status_of("revoked"@) == Some(CertificateStatus::Revoked),
        word != "reserved"@ && word != "issued"@ && word != "revoked"@ ==> status_of(word) is None,
{
    crate::rows::status_round_trip(CertificateStatus::Reserved);
    crate::rows::status_round_trip(CertificateStatus::Issued);
    crate::rows::status_round_trip(CertificateStatus::Revoked);
}

/// Every state has its word, and every word its state; no other word is one.
pub proof fn state_words_are_fixed(word: Seq<char>)
    ensures
        RequestState::Pending.word() == "PENDING"@,
        RequestState::Approved.word() == "APPROVED"@,
        RequestState::Issued.word() == "ISSUED"@,
        RequestState::Rejected.word() == "REJECTED"@,
        state_of("PENDING"@) == Some(RequestState::Pending),
        state_of("APPROVED"@) == Some(RequestState::Approved),
        state_of("ISSUED"@) == Some(RequestState::Issued),
        state_of("REJECTED"@) == Some(RequestState::Rejected),
        word != "PENDING"@ && word != "APPROVED"@ && word != "ISSUED"@ && word != "REJECTED"@
            ==> state_of(word) is None,
{
    crate::rows::state_round_trip(RequestState::Pending);
    crate::rows::state_round_trip(RequestState::Approved);
    crate::rows::state_round_trip(RequestState::Issued);
    crate::rows::state_round_trip(RequestState::Rejected);
}

/// A row of the register means each of its columns; a date that is missing is
/// the epoch, and an encoding that is missing is empty.
pub proof fn register_row_means_its_columns(row: CertificateRow, status: CertificateStatus)
    ensures
        ({
            let c = line_of(row, status);
            &&& c.serial == crate::crypto::hex_bytes(row.serial_hex@)
            &&& c.profile == row.profile@
            &&& c.subject_dn == row.subject_dn@
            &&& c.issuer_dn == row.issuer_dn@
            &&& row.not_before matches Some(t) ==> c.not_before == t
            &&& row.not_before is None ==> c.not_before == (Timestamp { nanos: 0 })
            &&& row.not_after matches Some(t) ==> c.not_after == t
            &&& row.not_after is None ==> c.not_after == (Timestamp { nanos: 0 })
            &&& row.der matches Some(der) ==> c.der == der@
            &&& row.der is None ==> c.der.len() == 0
            &&& c.status == status
            &&& c.revoked_at == row.revoked_at
            &&& c.revocation_reason == row.revocation_reason
            &&& c.request_transaction_id == row.request_transaction_id@
        }),
{
}

/// A row of the requests means each of its columns; a number that is missing or
/// empty is none.
pub proof fn request_row_means_its_columns(row: RequestRow, state: RequestState)
    ensures
        ({
            let r = request_of_row(row, state);
            &&& r.transaction_id == row.transaction_id@
            &&& r.csr_fingerprint == row.csr_fingerprint@
            &&& r.csr_der == row.csr_der@
            &&& r.profile == row.profile@
            &&& r.subject_cn == row.subject_cn@
            &&& r.state == state
            &&& r.created_at == row.created_at
            &&& r.decided_at == row.decided_at
            &&& r.operator == row.operator@
            &&& r.comment == row.comment@
            &&& r.issued_at == row.issued_at
            &&& row.certificate_serial_hex is None ==> r.certificate_serial is None
            &&& row.certificate_serial_hex matches Some(hex) ==> {
                &&& hex@.len() == 0 ==> r.certificate_serial is None
                &&& hex@.len() > 0 ==> r.certificate_serial == Some(
                    crate::crypto::hex_bytes(hex@),
                )
            }
        }),
{
}

/// A number in a column can be read where it is missing, empty, or hexadecimal.
pub proof fn number_column_is_hexadecimal(hex: String)
    ensures
        column_readable(None),
        serial_of_column(None) is None,
        column_readable(Some(hex)) <==> hex@.len() == 0 || crate::crypto::is_hex(hex@),
{
}

/// Hexadecimal that is read stands for its pairs of digits.
pub proof fn pairs_of_digits_are_read(text: Seq<char>, i: int)
    requires
        crate::crypto::is_hex(text),
        0 <= i < text.len() / 2,
    ensures
        text.len() % 2 == 0,
        crate::crypto::hex_bytes(text).len() == text.len() / 2,
        crate::crypto::hex_bytes(text)[i] == 16 * crate::crypto::hex_value(text[2 * i])->0
            + crate::crypto::hex_value(text[2 * i + 1])->0,
{
    assert(crate::crypto::hex_value(text[2 * i]) is Some);
    assert(crate::crypto::hex_value(text[2 * i + 1]) is Some);
}

/// A text is hexadecimal exactly where it has an even number of digits and
/// nothing else.
pub proof fn hexadecimal_is_digits(text: Seq<char>)
    ensures
        crate::crypto::is_hex(text) <==> text.len() % 2 == 0 && forall|i: int|
            0 <= i < text.len() ==> {
                let c = #[trigger] text[i];
                ('0' <= c <= '9') || ('a' <= c <= 'f') || ('A' <= c <= 'F')
            },
{
    assert forall|i: int| 0 <= i < text.len() implies (crate::crypto::hex_value(
        #[trigger] text[i],
    ) is Some <==> (('0' <= text[i] <= '9') || ('a' <= text[i] <= 'f') || ('A' <= text[i]
        <= 'F'))) by {
        crate::laws::enrolment::hexadecimal_is_two_digits_a_byte(seq![], 0, text[i]);
    }
}

/// SQLSTATE 23505, and nothing else, is a key that is there already.
pub proof fn one_code_is_a_taken_key(f: SqlFault)
    ensures
        unique_violation(f) <==> (f.code matches Some(code) && code@ == "23505"@),
{
}

/// What is said about each refusal of the store.
pub proof fn store_says(text: String)
    ensures
        StoreError::NotFound.message() == "castore: introuvable"@,
        StoreError::SerialTaken.message() == "castore: numéro de série déjà réservé"@,
        StoreError::Conflict.message() == "castore: état modifié entre-temps"@,
        StoreError::Other(text).message() == "castore: "@ + text@,
{
}

/// What is said about each refusal of an enrolment.
pub proof fn enrolment_says(text: String, operator: String, comment: String, e: StoreError)
    ensures
        RaflowError::Unauthenticated.message() == "raflow: demande non authentifiée"@,
        RaflowError::NotFound.message() == "raflow: demande inconnue"@,
        RaflowError::NotPending(text).message()
            == "raflow: la demande n'est plus en attente de décision (état actuel: "@ + text@
            + ")"@,
        RaflowError::Der(text).message() == "raflow: "@ + text@,
        RaflowError::Ca(text).message() == "raflow: "@ + text@,
        RaflowError::Other(text).message() == "raflow: "@ + text@,
        RaflowError::Store(e).message() == "raflow: "@ + e.message(),
        comment@.len() > 0 ==> (RaflowError::Rejected { operator, comment }).message()
            == "raflow: demande rejetée par l'autorité d'enregistrement (opérateur "@ + operator@
            + (" : "@ + comment@) + ")"@,
        comment@.len() == 0 ==> (RaflowError::Rejected { operator, comment }).message()
            == "raflow: demande rejetée par l'autorité d'enregistrement (opérateur "@ + operator@
            + ")"@,
{
    let opened = "raflow: demande rejetée par l'autorité d'enregistrement (opérateur "@
        + operator@;
    assert(opened + Seq::<char>::empty() =~= opened);
}

/// What is said about each failure of the responder.
pub proof fn responder_says(text: String)
    ensures
        OcspError::MissingMaterial.message()
            == "ocspresponder: signataire, certificat et émetteur requis"@,
        OcspError::MissingCrlUrl.message() == "ocspresponder: URL de CRL requise"@,
        OcspError::Fetch(text).message() == "ocspresponder: chargement de la CRL: "@ + text@,
        OcspError::UnexpectedStatus(text).message() == "ocspresponder: la PKI a répondu "@ + text@,
        OcspError::InvalidCrl(text).message() == "ocspresponder: CRL illisible: "@ + text@,
        OcspError::InvalidCrlSignature(text).message()
            == "ocspresponder: signature de la CRL invalide: "@ + text@,
        OcspError::Der(text).message() == "ocspresponder: "@ + text@,
        OcspError::Signing(text).message() == "ocspresponder: signature de la réponse: "@ + text@,
{
}

/// What is said about rows that cannot be read.
pub proof fn unreadable_rows_are_told(word: Seq<char>)
    ensures
        crate::rows::status_fault(word) == "castore: statut de certificat illisible en base: "@
            + crate::text::debug_text(word),
        crate::rows::state_fault(word) == "castore: état de demande illisible en base: "@
            + crate::text::debug_text(word),
        crate::rows::serial_fault(word) == "castore: numéro de série illisible en base: "@
            + crate::crypto::hex_fault(word),
{
}

} // verus!
