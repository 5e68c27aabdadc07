//! What a certification authority keeps: the authorities themselves, the
//! register of certificates, the enrolment requests and the revocation lists.
use vstd::prelude::*;

use crate::asn1::copy_of;
use crate::clock::Timestamp;
use crate::text::concat2;

verus! {

/// A serial number: big-endian bytes. All serial numbers that are drawn have
/// the same length, so that the order of the bytes is that of the numbers.
pub type Serial = Vec<u8>;

/// Where a certificate stands.
#[derive(Debug, Clone, Copy, PartialEq, Eq, Structural)]
pub enum CertificateStatus {
    /// The serial number is reserved and nothing is signed yet: never shown in
    /// a revocation list nor in an answer to an enrolment.
    Reserved,
    Issued,
    Revoked,
}

/// A line of the register of certificates.
#[derive(Debug)]
pub struct Certificate {
    pub serial: Serial,
    pub profile: String,
    pub subject_dn: String,
    pub issuer_dn: String,
    pub not_before: Timestamp,
    pub not_after: Timestamp,
    pub der: Vec<u8>,
    pub status: CertificateStatus,
    pub revoked_at: Option<Timestamp>,
    /// A reason code of RFC 5280 §5.3.1.
    pub revocation_reason: i32,
    /// The request that led to the certificate, and so to who approved it.
    pub request_transaction_id: String,
}

#[verifier::ext_equal]
pub ghost struct CertificateView {
    pub serial: Seq<u8>,
    pub profile: Seq<char>,
    pub subject_dn: Seq<char>,
    pub issuer_dn: Seq<char>,
    pub not_before: Timestamp,
    pub not_after: Timestamp,
    pub der: Seq<u8>,
    pub status: CertificateStatus,
    pub revoked_at: Option<Timestamp>,
    pub revocation_reason: i32,
    pub request_transaction_id: Seq<char>,
}

impl View for Certificate {
    type V = CertificateView;

    open spec fn view(&self) -> CertificateView {
        CertificateView {
            serial: self.serial@,
            profile: self.profile@,
            subject_dn: self.subject_dn@,
            issuer_dn: self.issuer_dn@,
            not_before: self.not_before,
            not_after: self.not_after,
            der: self.der@,
            status: self.status,
            revoked_at: self.revoked_at,
            revocation_reason: self.revocation_reason,
            request_transaction_id: self.request_transaction_id@,
        }
    }
}

impl Clone for Certificate {
    fn clone(&self) -> (r: Certificate)
        ensures
            r@ == self@,
    {
        Certificate {
            serial: copy_of(self.serial.as_slice()),
            profile: self.profile.clone(),
            subject_dn: self.subject_dn.clone(),
            issuer_dn: self.issuer_dn.clone(),
            not_before: self.not_before,
            not_after: self.not_after,
            der: copy_of(self.der.as_slice()),
            status: self.status,
            revoked_at: self.revoked_at,
            revocation_reason: self.revocation_reason,
            request_transaction_id: self.request_transaction_id.clone(),
        }
    }
}

/// Where an enrolment request stands. There are no other states, and none leads
/// to `Issued` but through `Approved`.
#[derive(Debug, Clone, Copy, PartialEq, Eq, Structural)]
pub enum RequestState {
    Pending,
    Approved,
    Issued,
    Rejected,
}

impl RequestState {
    /// The word that is stored and shown for the state.
    pub open spec fn word(self) -> Seq<char> {
        match self {
            RequestState::Pending => "PENDING"@,
            RequestState::Approved => "APPROVED"@,
            RequestState::Issued => "ISSUED"@,
            RequestState::Rejected => "REJECTED"@,
        }
    }

    /// Writes the word for the state.
    pub fn to_string(&self) -> (r: String)
        ensures
            r@ == self.word(),
    {
        match self {
            RequestState::Pending => "PENDING".to_owned(),
            RequestState::Approved => "APPROVED".to_owned(),
            RequestState::Issued => "ISSUED".to_owned(),
            RequestState::Rejected => "REJECTED".to_owned(),
        }
    }
}

/// An enrolment request.
#[derive(Debug)]
pub struct Request {
    pub transaction_id: String,
    /// The SHA-256 digest of the certification request in hexadecimal. It is
    /// unique, which makes an enrolment idempotent.
    pub csr_fingerprint: String,
    pub csr_der: Vec<u8>,
    pub profile: String,
    pub subject_cn: String,
    pub state: RequestState,
    pub created_at: Timestamp,
    pub decided_at: Option<Timestamp>,
    pub operator: String,
    pub comment: String,
    pub issued_at: Option<Timestamp>,
    pub certificate_serial: Option<Serial>,
}

#[verifier::ext_equal]
pub ghost struct RequestView {
    pub transaction_id: Seq<char>,
    pub csr_fingerprint: Seq<char>,
    pub csr_der: Seq<u8>,
    pub profile: Seq<char>,
    pub subject_cn: Seq<char>,
    pub state: RequestState,
    pub created_at: Timestamp,
    pub decided_at: Option<Timestamp>,
    pub operator: Seq<char>,
    pub comment: Seq<char>,
    pub issued_at: Option<Timestamp>,
    pub certificate_serial: Option<Seq<u8>>,
}

/// The view of bytes that may be absent.
pub open spec fn optional_bytes(bytes: Option<Vec<u8>>) -> Option<Seq<u8>> {
    match bytes {
        Some(b) => Some(b@),
        None => None,
    }
}

impl View for Request {
    type V = RequestView;

    open spec fn view(&self) -> RequestView {
        RequestView {
            transaction_id: self.transaction_id@,
            csr_fingerprint: self.csr_fingerprint@,
            csr_der: self.csr_der@,
            profile: self.profile@,
            subject_cn: self.subject_cn@,
            state: self.state,
            created_at: self.created_at,
            decided_at: self.decided_at,
            operator: self.operator@,
            comment: self.comment@,
            issued_at: self.issued_at,
            certificate_serial: optional_bytes(self.certificate_serial),
        }
    }
}

impl Clone for Request {
    fn clone(&self) -> (r: Request)
        ensures
            r@ == self@,
    {
        Request {
            transaction_id: self.transaction_id.clone(),
            csr_fingerprint: self.csr_fingerprint.clone(),
            csr_der: copy_of(self.csr_der.as_slice()),
            profile: self.profile.clone(),
            subject_cn: self.subject_cn.clone(),
            state: self.state,
            created_at: self.created_at,
            decided_at: self.decided_at,
            operator: self.operator.clone(),
            comment: self.comment.clone(),
            issued_at: self.issued_at,
            certificate_serial: match &self.certificate_serial {
                Some(s) => Some(copy_of(s.as_slice())),
                None => None,
            },
        }
    }
}

/// An authority of the hierarchy. Its private key never leaves its token: only
/// the labels by which it is reached are kept.
#[derive(Debug)]
pub struct Authority {
    pub name: String,
    pub subject_dn: String,
    pub der: Vec<u8>,
    pub token_label: String,
    pub key_label: String,
    pub created_at: Timestamp,
}

#[verifier::ext_equal]
pub ghost struct AuthorityView {
    pub name: Seq<char>,
    pub subject_dn: Seq<char>,
    pub der: Seq<u8>,
    pub token_label: Seq<char>,
    pub key_label: Seq<char>,
    pub created_at: Timestamp,
}

impl View for Authority {
    type V = AuthorityView;

    open spec fn view(&self) -> AuthorityView {
        AuthorityView {
            name: self.name@,
            subject_dn: self.subject_dn@,
            der: self.der@,
            token_label: self.token_label@,
            key_label: self.key_label@,
            created_at: self.created_at,
        }
    }
}

impl Clone for Authority {
    fn clone(&self) -> (r: Authority)
        ensures
            r@ == self@,
    {
        Authority {
            name: self.name.clone(),
            subject_dn: self.subject_dn.clone(),
            der: copy_of(self.der.as_slice()),
            token_label: self.token_label.clone(),
            key_label: self.key_label.clone(),
            created_at: self.created_at,
        }
    }
}

/// A published revocation list.
#[derive(Debug)]
pub struct Crl {
    pub number: i64,
    pub der: Vec<u8>,
    pub this_update: Timestamp,
    pub next_update: Timestamp,
}

#[verifier::ext_equal]
pub ghost struct CrlView {
    pub number: i64,
    pub der: Seq<u8>,
    pub this_update: Timestamp,
    pub next_update: Timestamp,
}

impl View for Crl {
    type V = CrlView;

    open spec fn view(&self) -> CrlView {
        CrlView {
            number: self.number,
            der: self.der@,
            this_update: self.this_update,
            next_update: self.next_update,
        }
    }
}

impl Clone for Crl {
    fn clone(&self) -> (r: Crl)
        ensures
            r@ == self@,
    {
        Crl {
            number: self.number,
            der: copy_of(self.der.as_slice()),
            this_update: self.this_update,
            next_update: self.next_update,
        }
    }
}

/// Why the store refused.
#[derive(Debug)]
pub enum StoreError {
    NotFound,
    /// The serial number is reserved already.
    SerialTaken,
    /// The state has changed in the meantime.
    Conflict,
    Other(String),
}

impl StoreError {
    /// What is said about the refusal.
    pub open spec fn message(self) -> Seq<char> {
        match self {
            StoreError::NotFound => "castore: introuvable"@,
            StoreError::SerialTaken => "castore: numéro de série déjà réservé"@,
            StoreError::Conflict => "castore: état modifié entre-temps"@,
            StoreError::Other(text) => "castore: "@ + text@,
        }
    }

    /// Writes what is said about the refusal.
    pub fn to_string(&self) -> (r: String)
        ensures
            r@ == self.message(),
    {
        match self {
            StoreError::NotFound => "castore: introuvable".to_owned(),
            StoreError::SerialTaken => "castore: numéro de série déjà réservé".to_owned(),
            StoreError::Conflict => "castore: état modifié entre-temps".to_owned(),
            StoreError::Other(text) => concat2("castore: ", text.as_str()),
        }
    }
}

impl Clone for StoreError {
    fn clone(&self) -> (r: StoreError)
        ensures
            r == self,
    {
        match self {
            StoreError::NotFound => StoreError::NotFound,
            StoreError::SerialTaken => StoreError::SerialTaken,
            StoreError::Conflict => StoreError::Conflict,
            StoreError::Other(text) => StoreError::Other(text.clone()),
        }
    }
}

} // verus!
