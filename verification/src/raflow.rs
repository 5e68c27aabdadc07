//! Enrolment: how a request is authenticated and identified, and what a
//! certification request must prove before anybody looks at it.
use vstd::prelude::*;
use vstd::string::StringExecFns;

use crate::castore::StoreError;
use crate::crypto::{hex_decode, hex_encode, hmac_sha256, hmac_sha256_matches, oid_bytes};
use crate::crypto::{rsa_key_bits, rsa_verify, sha256};
use crate::text::{
    bytes_eq, chars_of, concat2, concat3, decimal_string, string_from_utf8_lossy, string_of,
};
use crate::x509::{CertificationRequestView, NameAttribute};

verus! {

/// Why an enrolment is refused.
#[derive(Debug)]
pub enum RaflowError {
    Unauthenticated,
    /// Rejected by an operator of the registration authority.
    Rejected { operator: String, comment: String },
    NotFound,
    /// No longer awaiting a decision; the state it is in.
    NotPending(String),
    /// Bytes that cannot be read.
    Der(String),
    /// The authority refused.
    Ca(String),
    /// The store refused.
    Store(StoreError),
    Other(String),
}

/// A comment, set off from what precedes it.
pub open spec fn suffix(comment: Seq<char>) -> Seq<char> {
    if comment.len() == 0 {
        seq![]
    } else {
        " : "@ + comment
    }
}

/// Sets a comment off from what precedes it.
pub fn comment_suffix(c: &str) -> (r: String)
    ensures
        r@ == suffix(c@),
{
    if c.is_empty() {
        String::new()
    } else {
        concat2(" : ", c)
    }
}

impl RaflowError {
    /// What is said about the refusal.
    pub open spec fn message(self) -> Seq<char> {
        match self {
            RaflowError::Unauthenticated => "raflow: demande non authentifiée"@,
            RaflowError::Rejected { operator, comment } => {
                "raflow: demande rejetée par l'autorité d'enregistrement (opérateur "@ + operator@
                    + suffix(comment@) + ")"@
            },
            RaflowError::NotFound => "raflow: demande inconnue"@,
            RaflowError::NotPending(state) => {
                "raflow: la demande n'est plus en attente de décision (état actuel: "@ + state@
                    + ")"@
            },
            RaflowError::Der(text) => "raflow: "@ + text@,
            RaflowError::Ca(text) => "raflow: "@ + text@,
            RaflowError::Store(e) => "raflow: "@ + e.message(),
            RaflowError::Other(text) => "raflow: "@ + text@,
        }
    }

    /// Writes what is said about the refusal.
    pub fn to_string(&self) -> (r: String)
        ensures
            r@ == self.message(),
    {
        match self {
            RaflowError::Unauthenticated => "raflow: demande non authentifiée".to_owned(),
            RaflowError::Rejected { operator, comment } => {
                let mut out = concat2(
                    "raflow: demande rejetée par l'autorité d'enregistrement (opérateur ",
                    operator.as_str(),
                );
                out.append(comment_suffix(comment.as_str()).as_str());
                out.append(")");
                out
            },
            RaflowError::NotFound => "raflow: demande inconnue".to_owned(),
            RaflowError::NotPending(state) => concat3(
                "raflow: la demande n'est plus en attente de décision (état actuel: ",
                state.as_str(),
                ")",
            ),
            RaflowError::Der(text) => concat2("raflow: ", text.as_str()),
            RaflowError::Ca(text) => concat2("raflow: ", text.as_str()),
            RaflowError::Store(e) => concat2("raflow: ", e.to_string().as_str()),
            RaflowError::Other(text) => concat2("raflow: ", text.as_str()),
        }
    }
}

/// A refusal with a text of its own.
pub open spec fn is_refusal(e: RaflowError, text: Seq<char>) -> bool {
    e matches RaflowError::Other(t) && t@ == text
}

/// The code that authenticates a certification request under a secret.
pub open spec fn code_of(csr_der: Seq<u8>, secret: Seq<char>) -> Seq<u8> {
    crate::crypto::hmac_code(vstd::utf8::encode_utf8(secret), csr_der)
}

/// The HMAC-SHA256 code of the bytes of a certification request, in
/// hexadecimal. Client and server compute the same function.
pub fn signature(csr_der: &[u8], secret: &str) -> (r: String)
    ensures
        r@ == crate::crypto::hex_text(code_of(csr_der@, secret@)),
{
    let code = hmac_sha256(secret.as_bytes(), csr_der);
    hex_encode(code.as_slice())
}

/// The fingerprint of a certification request.
pub open spec fn fingerprint_of(csr_der: Seq<u8>) -> Seq<char> {
    crate::crypto::hex_text(crate::crypto::sha256_digest(csr_der))
}

/// The SHA-256 digest of a certification request in hexadecimal: submitting the
/// same request again finds the same enrolment.
pub fn fingerprint(csr_der: &[u8]) -> (r: String)
    ensures
        r@ == fingerprint_of(csr_der@),
        r@.len() == 64,
{
    let digest = sha256(csr_der);
    hex_encode(digest.as_slice())
}

/// The public identifier of an enrolment: the first half of the fingerprint,
/// which who lost it can compute again.
pub fn transaction_id(csr_der: &[u8]) -> (r: String)
    ensures
        r@ == fingerprint_of(csr_der@).take(32),
        r@.len() == 32,
{
    let full = fingerprint(csr_der);
    let chars = chars_of(full.as_str());
    assert(chars@.subrange(0, 32) =~= chars@.take(32));
    string_of(&chars, 0, 32)
}

/// The signature is the code of the certification request under the secret, in
/// hexadecimal of either case.
pub open spec fn authentic(csr_der: Seq<u8>, secret: Seq<char>, signature_hex: Seq<char>) -> bool {
    crate::crypto::is_hex(signature_hex) && crate::crypto::hex_bytes(signature_hex) == code_of(
        csr_der,
        secret,
    )
}

/// Checks the code that authenticates a certification request.
pub fn verify_hmac(csr_der: &[u8], secret: &str, signature_hex: &str) -> (r: Result<
    (),
    RaflowError,
>)
    ensures
        r is Ok <==> authentic(csr_der@, secret@, signature_hex@),
        r matches Err(e) ==> e == RaflowError::Unauthenticated,
{
    match hex_decode(signature_hex) {
        Err(_) => Err(RaflowError::Unauthenticated),
        Ok(given) => if hmac_sha256_matches(secret.as_bytes(), csr_der, given.as_slice()) {
            Ok(())
        } else {
            Err(RaflowError::Unauthenticated)
        },
    }
}

/// What the client signs, the server accepts.
pub proof fn own_signature_is_authentic(csr_der: Seq<u8>, secret: Seq<char>)
    ensures
        authentic(csr_der, secret, crate::crypto::hex_text(code_of(csr_der, secret))),
{
    crate::crypto::hex_round_trip(code_of(csr_der, secret));
}

/// The shortest RSA key that is accepted (ETSI TS 119 312 §6.2), in bits.
pub const MIN_RSA_KEY_BITS: usize = 3072;

/// The common name attribute.
pub const OID_COMMON_NAME: &'static str = "2.5.4.3";

/// The value of the first attribute of a type.
pub open spec fn first_attribute(attributes: Seq<(Seq<u8>, Seq<u8>)>, oid: Seq<u8>) -> Option<
    Seq<u8>,
>
    decreases attributes.len(),
{
    if attributes.len() == 0 {
        None
    } else if attributes[0].0 == oid {
        Some(attributes[0].1)
    } else {
        first_attribute(attributes.drop_first(), oid)
    }
}

/// The common name in a name, empty where there is none.
pub open spec fn common_name_of(name_der: Seq<u8>) -> Seq<char> {
    match (
        crate::x509::name_attributes_of(name_der),
        crate::crypto::oid_content(OID_COMMON_NAME@),
    ) {
        (Some(attributes), Some(oid)) => match first_attribute(attributes, oid) {
            Some(value) => crate::text::lossy_text(value),
            None => seq![],
        },
        _ => seq![],
    }
}

/// Finds the value of the first attribute of a type.
pub fn find_attribute<'a>(attributes: &'a Vec<NameAttribute>, oid: &[u8]) -> (r: Option<
    &'a NameAttribute,
>)
    ensures
        match r {
            Some(a) => first_attribute(crate::x509::attribute_views(attributes@), oid@) == Some(
                a.value@,
            ),
            None => first_attribute(crate::x509::attribute_views(attributes@), oid@) is None,
        },
{
    let ghost views = crate::x509::attribute_views(attributes@);
    let mut i: usize = 0;
    assert(views.skip(0) =~= views);
    while i < attributes.len()
        invariant
            i <= attributes@.len(),
            views == crate::x509::attribute_views(attributes@),
            first_attribute(views.skip(i as int), oid@) == first_attribute(views, oid@),
        decreases attributes.len() - i,
    {
        assert(views.skip(i as int)[0] == attributes@[i as int]@);
        if bytes_eq(attributes[i].oid.as_slice(), oid) {
            return Some(&attributes[i]);
        }
        assert(views.skip(i as int).drop_first() =~= views.skip(i + 1));
        i += 1;
    }
    None
}

/// The common name in a name, empty where there is none.
pub fn common_name(name_der: &[u8]) -> (r: String)
    ensures
        r@ == common_name_of(name_der@),
{
    let attributes = match crate::x509::read_name(name_der) {
        Some(attributes) => attributes,
        None => return String::new(),
    };
    let oid = match oid_bytes(OID_COMMON_NAME) {
        Some(oid) => oid,
        None => return String::new(),
    };
    match find_attribute(&attributes, oid.as_slice()) {
        Some(a) => string_from_utf8_lossy(a.value.as_slice()),
        None => String::new(),
    }
}

/// What is wrong with a certification request, once its key is measured, its
/// signature checked and its common name read.
pub open spec fn csr_fault(
    key_bits: Result<nat, Seq<char>>,
    signed: bool,
    cn: Seq<char>,
) -> Option<Seq<char>> {
    match key_bits {
        Err(fault) => Some("clé publique de la demande illisible: "@ + fault),
        Ok(bits) => if bits < MIN_RSA_KEY_BITS {
            Some(
                "clé RSA de "@ + crate::text::decimal(bits)
                    + " bits: ETSI TS 119 312 impose au moins "@ + crate::text::decimal(
                    MIN_RSA_KEY_BITS as nat,
                ) + " bits"@,
            )
        } else if !signed {
            Some("la demande n'est pas signée par la clé qu'elle présente"@)
        } else if cn.len() == 0 {
            Some("la demande ne porte pas de nom courant (CN)"@)
        } else {
            None
        },
    }
}

/// The view of a measured key.
pub open spec fn key_bits_view(key_bits: Result<usize, String>) -> Result<nat, Seq<char>> {
    match key_bits {
        Ok(bits) => Ok(bits as nat),
        Err(fault) => Err(fault@),
    }
}

/// Judges a certification request whose key is measured, whose signature is
/// checked and whose common name is read.
pub fn judge_csr(key_bits: Result<usize, String>, signed: bool, cn: &str) -> (r: Result<
    (),
    RaflowError,
>)
    ensures
        match r {
            Ok(_) => csr_fault(key_bits_view(key_bits), signed, cn@) is None,
            Err(e) => csr_fault(key_bits_view(key_bits), signed, cn@) matches Some(text)
                && is_refusal(e, text),
        },
{
    match key_bits {
        Err(fault) => Err(
            RaflowError::Other(
                concat2("clé publique de la demande illisible: ", fault.as_str()),
            ),
        ),
        Ok(bits) => if bits < MIN_RSA_KEY_BITS {
            let mut text = "clé RSA de ".to_owned();
            text.append(decimal_string(bits as u128).as_str());
            text.append(" bits: ETSI TS 119 312 impose au moins ");
            text.append(decimal_string(MIN_RSA_KEY_BITS as u128).as_str());
            text.append(" bits");
            Err(RaflowError::Other(text))
        } else if !signed {
            Err(
                RaflowError::Other(
                    "la demande n'est pas signée par la clé qu'elle présente".to_owned(),
                ),
            )
        } else if cn.is_empty() {
            Err(
                RaflowError::Other("la demande ne porte pas de nom courant (CN)".to_owned()),
            )
        } else {
            Ok(())
        },
    }
}

/// The request is signed by the key that it presents, with RSA and SHA-256.
pub open spec fn self_signed(c: CertificationRequestView) -> bool {
    crate::crypto::rsa_signature_fault(
        c.public_key_info,
        crate::crypto::sha256_digest(c.info),
        c.signature,
    ) is None
}

/// The fault of a certification request that could be read.
pub open spec fn request_fault(c: CertificationRequestView) -> Option<Seq<char>> {
    csr_fault(
        crate::crypto::rsa_key_size(c.public_key_info),
        self_signed(c),
        common_name_of(c.subject),
    )
}

/// The common name and the public key of a certification request, once it is
/// known to be signed by that key: a proof of possession. Only RSA with SHA-256
/// is accepted, with a key that is long enough.
pub fn parse_and_verify_csr(csr_der: &[u8]) -> (r: Result<(String, Vec<u8>), RaflowError>)
    ensures
        match crate::x509::request_of(csr_der@) {
            Err(fault) => r matches Err(RaflowError::Der(text)) && text@ == fault,
            Ok(c) => match request_fault(c) {
                Some(text) => r matches Err(e) && is_refusal(e, text),
                None => r matches Ok(accepted) && accepted.0@ == common_name_of(c.subject)
                    && accepted.1@ == c.public_key_info && accepted.0@.len() > 0,
            },
        },
{
    let csr = match crate::x509::read_request(csr_der) {
        Ok(csr) => csr,
        Err(fault) => return Err(RaflowError::Der(fault)),
    };
    let key_bits = rsa_key_bits(csr.public_key_info.as_slice());
    let digest = sha256(csr.info.as_slice());
    let signed = rsa_verify(
        csr.public_key_info.as_slice(),
        digest.as_slice(),
        csr.signature.as_slice(),
    ).is_ok();
    let cn = common_name(csr.subject.as_slice());
    match judge_csr(key_bits, signed, cn.as_str()) {
        Err(e) => Err(e),
        Ok(_) => Ok((cn, csr.public_key_info)),
    }
}

} // verus!
