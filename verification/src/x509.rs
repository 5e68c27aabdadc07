//! Certificates, certification requests and revocation lists as plain values,
//! read by the `x509_cert` crate.
use vstd::prelude::*;

use der::{Decode, Encode};

use crate::asn1::copy_of;

verus! {

/// An extension: the content bytes of its identifier, whether it is critical,
/// and its value.
#[derive(Debug)]
pub struct Extension {
    pub oid: Vec<u8>,
    pub critical: bool,
    pub value: Vec<u8>,
}

pub ghost struct ExtensionView {
    pub oid: Seq<u8>,
    pub critical: bool,
    pub value: Seq<u8>,
}

impl View for Extension {
    type V = ExtensionView;

    open spec fn view(&self) -> ExtensionView {
        ExtensionView { oid: self.oid@, critical: self.critical, value: self.value@ }
    }
}

/// What was read is a given value.
pub open spec fn reads_as<T>(read: Result<T, Seq<char>>, value: T) -> bool {
    read == Ok::<T, Seq<char>>(value)
}

/// The views of a list of extensions.
pub open spec fn extension_views(list: Seq<Extension>) -> Seq<ExtensionView> {
    list.map_values(|e: Extension| e@)
}

/// An extension of its parts.
pub fn extension(oid: &[u8], critical: bool, value: &[u8]) -> (r: Extension)
    ensures
        r@ == (ExtensionView { oid: oid@, critical, value: value@ }),
{
    Extension { oid: copy_of(oid), critical, value: copy_of(value) }
}

/// An attribute of a name: the content bytes of its type and of its value.
#[derive(Debug)]
pub struct NameAttribute {
    pub oid: Vec<u8>,
    pub value: Vec<u8>,
}

impl View for NameAttribute {
    type V = (Seq<u8>, Seq<u8>);

    open spec fn view(&self) -> (Seq<u8>, Seq<u8>) {
        (self.oid@, self.value@)
    }
}

/// The views of a list of attributes.
pub open spec fn attribute_views(list: Seq<NameAttribute>) -> Seq<(Seq<u8>, Seq<u8>)> {
    list.map_values(|a: NameAttribute| a@)
}

/// A certificate.
#[derive(Debug)]
pub struct Certificate {
    /// The signature algorithm, in dotted notation.
    pub signature_algorithm: String,
    /// Start of validity, in seconds since the epoch.
    pub not_before: u64,
    /// End of validity, in seconds since the epoch.
    pub not_after: u64,
    pub extensions: Vec<Extension>,
    /// The encoding of the subject's name.
    pub subject: Vec<u8>,
    /// The encoding of the subject's public key with its algorithm.
    pub public_key_info: Vec<u8>,
    /// The encoding of the certificate.
    pub encoding: Vec<u8>,
}

pub ghost struct CertificateView {
    pub signature_algorithm: Seq<char>,
    pub not_before: nat,
    pub not_after: nat,
    pub extensions: Seq<ExtensionView>,
    pub subject: Seq<u8>,
    pub public_key_info: Seq<u8>,
    pub encoding: Seq<u8>,
}

impl View for Certificate {
    type V = CertificateView;

    open spec fn view(&self) -> CertificateView {
        CertificateView {
            signature_algorithm: self.signature_algorithm@,
            not_before: self.not_before as nat,
            not_after: self.not_after as nat,
            extensions: extension_views(self.extensions@),
            subject: self.subject@,
            public_key_info: self.public_key_info@,
            encoding: self.encoding@,
        }
    }
}

/// The certificate that bytes encode, or what is said about them.
pub uninterp spec fn certificate_of(der: Seq<u8>) -> Result<CertificateView, Seq<char>>;

/// `x509_cert::Certificate::from_der`, with the parts that are used here and
/// the encoding of what was read.
#[verifier::external_body]
pub(crate) fn read_certificate(der: &[u8]) -> (r: Result<Certificate, String>)
    ensures
        match r {
            Ok(c) => certificate_of(der@) == Ok::<CertificateView, Seq<char>>(c@),
            Err(fault) => certificate_of(der@) == Err::<CertificateView, Seq<char>>(fault@),
        },
{
    let text = |e: der::Error| e.to_string();
    let c = x509_cert::Certificate::from_der(der).map_err(text)?;
    let t = c.tbs_certificate();
    Ok(Certificate {
        signature_algorithm: c.signature_algorithm().oid.to_string(),
        not_before: t.validity().not_before.to_unix_duration().as_secs(),
        not_after: t.validity().not_after.to_unix_duration().as_secs(),
        extensions: t.extensions().into_iter().flatten().map(
            |e| extension(e.extn_id.as_bytes(), e.critical, e.extn_value.as_bytes()),
        ).collect(),
        subject: t.subject().to_der().map_err(text)?,
        public_key_info: t.subject_public_key_info().to_der().map_err(text)?,
        encoding: c.to_der().map_err(text)?,
    })
}

impl Certificate {
    /// Reads the encoding of a certificate.
    pub fn from_der(der: &[u8]) -> (r: Result<Certificate, String>)
        ensures
            match r {
                Ok(c) => reads_as(certificate_of(der@), c@),
                Err(fault) => certificate_of(der@) == Err::<CertificateView, Seq<char>>(fault@),
            },
    {
        read_certificate(der)
    }
}

/// A certification request.
#[derive(Debug)]
pub struct CertificationRequest {
    /// The encoding of the part that is signed.
    pub info: Vec<u8>,
    /// The encoding of the subject's name.
    pub subject: Vec<u8>,
    /// The encoding of the public key with its algorithm.
    pub public_key_info: Vec<u8>,
    pub signature: Vec<u8>,
}

pub ghost struct CertificationRequestView {
    pub info: Seq<u8>,
    pub subject: Seq<u8>,
    pub public_key_info: Seq<u8>,
    pub signature: Seq<u8>,
}

impl View for CertificationRequest {
    type V = CertificationRequestView;

    open spec fn view(&self) -> CertificationRequestView {
        CertificationRequestView {
            info: self.info@,
            subject: self.subject@,
            public_key_info: self.public_key_info@,
            signature: self.signature@,
        }
    }
}

/// The certification request that bytes encode, or what is said about them.
pub uninterp spec fn request_of(der: Seq<u8>) -> Result<CertificationRequestView, Seq<char>>;

/// `CertReq::from_der`, with the encodings of its parts.
#[verifier::external_body]
pub(crate) fn read_request(der: &[u8]) -> (r: Result<CertificationRequest, String>)
    ensures
        match r {
            Ok(c) => request_of(der@) == Ok::<CertificationRequestView, Seq<char>>(c@),
            Err(fault) => request_of(der@) == Err::<CertificationRequestView, Seq<char>>(fault@),
        },
{
    let c = x509_cert::request::CertReq::from_der(der).map_err(|e| e.to_string())?;
    Ok(
        CertificationRequest {
            info: c.info.to_der().map_err(|e| e.to_string())?,
            subject: c.info.subject.to_der().map_err(|e| e.to_string())?,
            public_key_info: c.info.public_key.to_der().map_err(|e| e.to_string())?,
            signature: c.signature.raw_bytes().to_vec(),
        },
    )
}

/// A revoked certificate, as a revocation list has it.
#[derive(Debug)]
pub struct RevokedEntry {
    /// The content bytes of the serial number.
    pub serial: Vec<u8>,
    /// When it was revoked, in seconds since the epoch.
    pub revoked_at: u64,
    pub extensions: Vec<Extension>,
}

pub ghost struct RevokedEntryView {
    pub serial: Seq<u8>,
    pub revoked_at: nat,
    pub extensions: Seq<ExtensionView>,
}

impl View for RevokedEntry {
    type V = RevokedEntryView;

    open spec fn view(&self) -> RevokedEntryView {
        RevokedEntryView {
            serial: self.serial@,
            revoked_at: self.revoked_at as nat,
            extensions: extension_views(self.extensions@),
        }
    }
}

/// The views of a list of revoked certificates.
pub open spec fn revoked_views(list: Seq<RevokedEntry>) -> Seq<RevokedEntryView> {
    list.map_values(|e: RevokedEntry| e@)
}

/// A revocation list.
#[derive(Debug)]
pub struct RevocationList {
    /// The encoding of the part that is signed.
    pub tbs: Vec<u8>,
    pub signature: Vec<u8>,
    /// When it was issued, in seconds since the epoch.
    pub this_update: u64,
    /// When the next one is due, in seconds since the epoch.
    pub next_update: Option<u64>,
    pub extensions: Vec<Extension>,
}

pub ghost struct RevocationListView {
    pub tbs: Seq<u8>,
    pub signature: Seq<u8>,
    pub this_update: nat,
    pub next_update: Option<nat>,
    pub extensions: Seq<ExtensionView>,
}

impl View for RevocationList {
    type V = RevocationListView;

    open spec fn view(&self) -> RevocationListView {
        RevocationListView {
            tbs: self.tbs@,
            signature: self.signature@,
            this_update: self.this_update as nat,
            next_update: match self.next_update {
                Some(seconds) => Some(seconds as nat),
                None => None,
            },
            extensions: extension_views(self.extensions@),
        }
    }
}

/// The revocation list that bytes encode, or what is said about them.
pub uninterp spec fn revocation_list_of(der: Seq<u8>) -> Result<RevocationListView, Seq<char>>;

/// `CertificateList::from_der`, with the encoding of the part that is signed.
#[verifier::external_body]
pub(crate) fn read_revocation_list(der: &[u8]) -> (r: Result<RevocationList, String>)
    ensures
        match r {
            Ok(l) => revocation_list_of(der@) == Ok::<RevocationListView, Seq<char>>(l@),
            Err(fault) => revocation_list_of(der@) == Err::<RevocationListView, Seq<char>>(fault@),
        },
{
    let text = |e: der::Error| e.to_string();
    let l: x509_cert::crl::CertificateList = Decode::from_der(der).map_err(text)?;
    let tbs = l.tbs_cert_list.to_der().map_err(text)?;
    let t = l.tbs_cert_list;
    Ok(RevocationList {
        tbs,
        signature: l.signature.raw_bytes().to_vec(),
        this_update: t.this_update.to_unix_duration().as_secs(),
        next_update: t.next_update.map(|u| u.to_unix_duration().as_secs()),
        extensions: t.crl_extensions.into_iter().flatten().map(
            |e| extension(e.extn_id.as_bytes(), e.critical, e.extn_value.as_bytes()),
        ).collect(),
    })
}

/// The certificates that the revocation list in some bytes revokes, where they
/// encode one.
pub uninterp spec fn revoked_entries_of(der: Seq<u8>) -> Option<Seq<RevokedEntryView>>;

/// `CertificateList::from_der`, with its entries in order, none where the list
/// is absent. It fails on no bytes that encode a revocation list.
#[verifier::external_body]
pub(crate) fn read_revoked_entries(der: &[u8]) -> (r: Option<Vec<RevokedEntry>>)
    ensures
        match r {
            Some(list) => revoked_entries_of(der@) == Some(revoked_views(list@)),
            None => revoked_entries_of(der@) is None,
        },
        r is None ==> revocation_list_of(der@) is Err,
{
    let l: x509_cert::crl::CertificateList = Decode::from_der(der).ok()?;
    let entry = |r: x509_cert::crl::RevokedCert| RevokedEntry {
        serial: r.serial_number.as_bytes().to_vec(),
        revoked_at: r.revocation_date.to_unix_duration().as_secs(),
        extensions: r.crl_entry_extensions.into_iter().flatten().map(
            |e| extension(e.extn_id.as_bytes(), e.critical, e.extn_value.as_bytes()),
        ).collect(),
    };
    Some(l.tbs_cert_list.revoked_certificates.into_iter().flatten().map(entry).collect())
}

/// The attributes of the name that bytes encode, where they encode one.
pub uninterp spec fn name_attributes_of(der: Seq<u8>) -> Option<Seq<(Seq<u8>, Seq<u8>)>>;

/// `Name::from_der`, with its attributes in order.
#[verifier::external_body]
pub(crate) fn read_name(der: &[u8]) -> (r: Option<Vec<NameAttribute>>)
    ensures
        match r {
            Some(list) => name_attributes_of(der@) == Some(attribute_views(list@)),
            None => name_attributes_of(der@) is None,
        },
{
    let name = x509_cert::name::Name::from_der(der).ok()?;
    Some(name.iter().map(|a| NameAttribute { oid: a.oid.as_bytes().to_vec(), value: a.value.value().to_vec() }).collect())
}

/// The bits of the public key that bytes encode with its algorithm.
pub uninterp spec fn public_key_bits_of(der: Seq<u8>) -> Option<Seq<u8>>;

/// `SubjectPublicKeyInfoOwned::from_der`, and the bytes of the key itself.
#[verifier::external_body]
pub(crate) fn read_public_key_bits(der: &[u8]) -> (r: Option<Vec<u8>>)
    ensures
        match r {
            Some(bits) => public_key_bits_of(der@) == Some(bits@),
            None => public_key_bits_of(der@) is None,
        },
{
    let spki = spki::SubjectPublicKeyInfoOwned::from_der(der).ok()?;
    Some(spki.subject_public_key.raw_bytes().to_vec())
}

/// The dotted notation of the algorithm that bytes identify, where they do.
pub uninterp spec fn algorithm_of(der: Seq<u8>) -> Option<Seq<char>>;

/// `AlgorithmIdentifierOwned::from_der`, and the notation of its identifier.
#[verifier::external_body]
pub(crate) fn read_algorithm(der: &[u8]) -> (r: Option<String>)
    ensures
        match r {
            Some(dotted) => algorithm_of(der@) == Some(dotted@),
            None => algorithm_of(der@) is None,
        },
{
    spki::AlgorithmIdentifierOwned::from_der(der).ok().map(|a| a.oid.to_string())
}

/// Whether the value of a `basicConstraints` extension names an authority, or
/// what is said about the value.
pub uninterp spec fn authority_flag_of(value: Seq<u8>) -> Result<bool, Seq<char>>;

/// `BasicConstraints::from_der`, and its `ca` flag.
#[verifier::external_body]
pub(crate) fn read_authority_flag(value: &[u8]) -> (r: Result<bool, String>)
    ensures
        match r {
            Ok(ca) => authority_flag_of(value@) == Ok::<bool, Seq<char>>(ca),
            Err(fault) => authority_flag_of(value@) == Err::<bool, Seq<char>>(fault@),
        },
{
    let constraints = x509_cert::ext::pkix::BasicConstraints::from_der(value);
    constraints.map(|c| c.ca).map_err(|e| e.to_string())
}

/// The bits of the value of a `keyUsage` extension, the first named bit being
/// the lowest, or what is said about the value.
pub uninterp spec fn key_usage_of(value: Seq<u8>) -> Result<u16, Seq<char>>;

/// `KeyUsage::from_der`, and the bits of its flags.
#[verifier::external_body]
pub(crate) fn read_key_usage(value: &[u8]) -> (r: Result<u16, String>)
    ensures
        match r {
            Ok(bits) => key_usage_of(value@) == Ok::<u16, Seq<char>>(bits),
            Err(fault) => key_usage_of(value@) == Err::<u16, Seq<char>>(fault@),
        },
{
    let usage = x509_cert::ext::pkix::KeyUsage::from_der(value);
    usage.map(|u| u.0.bits()).map_err(|e| e.to_string())
}

/// The views of a list of byte strings.
pub open spec fn byte_views(list: Seq<Vec<u8>>) -> Seq<Seq<u8>> {
    list.map_values(|b: Vec<u8>| b@)
}

/// The purposes that the value of an `extendedKeyUsage` extension lists, by the
/// content bytes of their identifiers, or what is said about the value.
pub uninterp spec fn purposes_of(value: Seq<u8>) -> Result<Seq<Seq<u8>>, Seq<char>>;

/// `ExtendedKeyUsage::from_der`, with the identifiers in order.
#[verifier::external_body]
pub(crate) fn read_purposes(value: &[u8]) -> (r: Result<Vec<Vec<u8>>, String>)
    ensures
        match r {
            Ok(list) => purposes_of(value@) == Ok::<Seq<Seq<u8>>, Seq<char>>(byte_views(list@)),
            Err(fault) => purposes_of(value@) == Err::<Seq<Seq<u8>>, Seq<char>>(fault@),
        },
{
    let usage = x509_cert::ext::pkix::ExtendedKeyUsage::from_der(value).map_err(|e| e.to_string())?;
    Ok(usage.0.iter().map(|oid| oid.as_bytes().to_vec()).collect())
}

/// The policies that the value of a `certificatePolicies` extension lists, by
/// the content bytes of their identifiers.
pub uninterp spec fn policies_of(value: Seq<u8>) -> Option<Seq<Seq<u8>>>;

/// `CertificatePolicies::from_der`, with the policy identifiers in order.
#[verifier::external_body]
pub(crate) fn read_policies(value: &[u8]) -> (r: Option<Vec<Vec<u8>>>)
    ensures
        match r {
            Some(list) => policies_of(value@) == Some(byte_views(list@)),
            None => policies_of(value@) is None,
        },
{
    let policies = x509_cert::ext::pkix::CertificatePolicies::from_der(value).ok()?;
    Some(policies.0.iter().map(|p| p.policy_identifier.as_bytes().to_vec()).collect())
}

/// The views of a list of optional texts.
pub open spec fn optional_views(list: Seq<Option<String>>) -> Seq<Option<Seq<char>>> {
    list.map_values(
        |o: Option<String>|
            match o {
                Some(text) => Some(text@),
                None => None,
            },
    )
}

/// The names that the value of a `subjectAltName` extension lists: the text of
/// a DNS name, nothing for a name of another kind.
pub uninterp spec fn alternative_names_of(value: Seq<u8>) -> Option<Seq<Option<Seq<char>>>>;

/// `SubjectAltName::from_der`, with the texts of the DNS names.
#[verifier::external_body]
pub(crate) fn read_alternative_names(value: &[u8]) -> (r: Option<Vec<Option<String>>>)
    ensures
        match r {
            Some(list) => alternative_names_of(value@) == Some(optional_views(list@)),
            None => alternative_names_of(value@) is None,
        },
{
    let names = x509_cert::ext::pkix::SubjectAltName::from_der(value).ok()?;
    let text = |n| match n {
        x509_cert::ext::pkix::name::GeneralName::DnsName(d) => Some(d.to_string()),
        _ => None,
    };
    Some(names.0.into_iter().map(text).collect())
}

/// The serial numbers that a value lists, by their content bytes, or what is
/// said about the value.
pub uninterp spec fn serials_of(value: Seq<u8>) -> Result<Seq<Seq<u8>>, Seq<char>>;

/// `Vec::<SerialNumber>::from_der`, with the content bytes of each.
#[verifier::external_body]
pub(crate) fn read_serials(value: &[u8]) -> (r: Result<Vec<Vec<u8>>, String>)
    ensures
        match r {
            Ok(list) => serials_of(value@) == Ok::<Seq<Seq<u8>>, Seq<char>>(byte_views(list@)),
            Err(fault) => serials_of(value@) == Err::<Seq<Seq<u8>>, Seq<char>>(fault@),
        },
{
    let list: Vec<x509_cert::serial_number::SerialNumber> = Decode::from_der(value).map_err(
        |e: der::Error| e.to_string(),
    )?;
    Ok(list.iter().map(|s| s.as_bytes().to_vec()).collect())
}

/// The codes of `CRLReason` (RFC 5280 §5.3.1).
pub open spec fn reason_code(code: u8) -> bool {
    code <= 10 && code != 7
}

/// `CrlReason::from_der`: one of its codes in an ENUMERATED of one byte.
#[verifier::external_body]
pub(crate) fn read_reason(value: &[u8]) -> (r: Option<u8>)
    ensures
        match r {
            Some(code) => reason_code(code) && value@ == seq![0x0au8, 1u8, code],
            None => !(value@.len() == 3 && value@[0] == 0x0a && value@[1] == 1 && reason_code(
                value@[2],
            )),
        },
{
    x509_cert::ext::pkix::crl::CrlReason::from_der(value).ok().map(|reason| reason as u8)
}

} // verus!
