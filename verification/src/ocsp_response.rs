//! Answers about the status of certificates (RFC 6960 §4.2), as they are
//! encoded.
//!
//! ```text
//! OCSPResponse      ::= SEQUENCE { responseStatus ENUMERATED,
//!                                  responseBytes [0] SEQUENCE { OID, OCTET STRING } OPTIONAL }
//! BasicOCSPResponse ::= SEQUENCE { tbsResponseData, signatureAlgorithm,
//!                                  signature BIT STRING, certs [0] SEQUENCE OF Certificate }
//! ResponseData      ::= SEQUENCE { responderID [1] Name, producedAt GeneralizedTime,
//!                                  responses SEQUENCE OF SingleResponse }
//! SingleResponse    ::= SEQUENCE { CertID, CertStatus, thisUpdate GeneralizedTime,
//!                                  nextUpdate [0] GeneralizedTime }
//! CertStatus        ::= CHOICE { good [0] NULL, revoked [1] RevokedInfo, unknown [2] NULL }
//! RevokedInfo       ::= SEQUENCE { GeneralizedTime, [0] CRLReason OPTIONAL }
//! ```
use vstd::prelude::*;

use crate::asn1::{
    encode_tlv, push_bytes, push_tlv, split, split_of_tlv, tlv, MAX_CONTENT, TAG_BIT_STRING,
    TAG_ENUMERATED, TAG_GENERALIZED_TIME, TAG_OCTET_STRING, TAG_OID, TAG_SEQUENCE,
};
use crate::calendar::{encodable, encode_time, is_date_of, time_encoding, Date};
use crate::clock::Timestamp;
use crate::ocsp_request::{TAG_CONTEXT_0, TAG_CONTEXT_1};

verus! {

/// The outcome of a request as a whole.
#[derive(Debug, Clone, Copy, PartialEq, Eq, Structural)]
pub enum OcspResponseStatus {
    Successful,
    MalformedRequest,
    InternalError,
    TryLater,
    SigRequired,
    Unauthorized,
}

impl OcspResponseStatus {
    /// The code of the outcome.
    pub open spec fn code(self) -> u8 {
        match self {
            OcspResponseStatus::Successful => 0,
            OcspResponseStatus::MalformedRequest => 1,
            OcspResponseStatus::InternalError => 2,
            OcspResponseStatus::TryLater => 3,
            OcspResponseStatus::SigRequired => 5,
            OcspResponseStatus::Unauthorized => 6,
        }
    }

    /// The code of the outcome.
    pub fn number(&self) -> (r: u8)
        ensures
            r == self.code(),
    {
        match self {
            OcspResponseStatus::Successful => 0,
            OcspResponseStatus::MalformedRequest => 1,
            OcspResponseStatus::InternalError => 2,
            OcspResponseStatus::TryLater => 3,
            OcspResponseStatus::SigRequired => 5,
            OcspResponseStatus::Unauthorized => 6,
        }
    }
}

/// The encoding of an outcome.
pub open spec fn status_encoding(status: OcspResponseStatus) -> Seq<u8> {
    tlv(TAG_ENUMERATED, seq![status.code()])
}

/// The answer that carries nothing but an outcome.
pub open spec fn bare_response(status: OcspResponseStatus) -> Seq<u8> {
    tlv(TAG_SEQUENCE, status_encoding(status))
}

/// Encodes the answer that carries nothing but an outcome.
pub fn error_response(status: OcspResponseStatus) -> (r: Vec<u8>)
    ensures
        r@ == bare_response(status),
        r@ == seq![0x30u8, 3u8, 0x0au8, 1u8, status.code()],
{
    let mut code: Vec<u8> = Vec::new();
    code.push(status.number());
    assert(code@ =~= seq![status.code()]);
    let content = encode_tlv(TAG_ENUMERATED, code.as_slice());
    let r = encode_tlv(TAG_SEQUENCE, content.as_slice());
    assert(r@ =~= seq![0x30u8, 3u8, 0x0au8, 1u8, status.code()]);
    r
}

/// The status of one certificate.
#[derive(Debug, Clone, Copy, PartialEq, Eq, Structural)]
pub enum CertStatus {
    Good,
    Revoked { at: Timestamp, reason: Option<u8> },
    Unknown,
}

/// `[0]` and `[2]`, around nothing.
pub const TAG_GOOD: u8 = 0x80;

pub const TAG_UNKNOWN: u8 = 0x82;

/// The encoding of the reason of a revocation, empty where there is none.
pub open spec fn reason_encoding(reason: Option<u8>) -> Seq<u8> {
    match reason {
        Some(code) => tlv(TAG_CONTEXT_0, tlv(TAG_ENUMERATED, seq![code])),
        None => seq![],
    }
}

/// The encoding of a status.
pub open spec fn cert_status_encoding(s: CertStatus) -> Seq<u8> {
    match s {
        CertStatus::Good => tlv(TAG_GOOD, seq![]),
        CertStatus::Revoked { at, reason } => tlv(
            TAG_CONTEXT_1,
            time_encoding(at) + reason_encoding(reason),
        ),
        CertStatus::Unknown => tlv(TAG_UNKNOWN, seq![]),
    }
}

/// A status whose date can be encoded.
pub open spec fn status_encodable(s: CertStatus) -> bool {
    s matches CertStatus::Revoked { at, .. } ==> encodable(at)
}

/// What is known of one certificate, and since when and until when.
#[derive(Debug, Clone, Copy, PartialEq, Eq, Structural)]
pub struct Update {
    pub status: CertStatus,
    pub this_update: Timestamp,
    pub next_update: Timestamp,
}

/// The part of the answer about one certificate.
pub open spec fn single_response(id: Seq<u8>, u: Update) -> Seq<u8> {
    tlv(
        TAG_SEQUENCE,
        id + cert_status_encoding(u.status) + time_encoding(u.this_update) + tlv(
            TAG_CONTEXT_0,
            time_encoding(u.next_update),
        ),
    )
}

/// The part of the answer that is signed.
pub open spec fn response_data(
    responder: Seq<u8>,
    id: Seq<u8>,
    u: Update,
    produced_at: Timestamp,
) -> Seq<u8> {
    tlv(
        TAG_SEQUENCE,
        tlv(TAG_CONTEXT_1, responder) + time_encoding(produced_at) + tlv(
            TAG_SEQUENCE,
            single_response(id, u),
        ),
    )
}

/// Everything that goes into the signed part can be encoded.
pub open spec fn data_encodable(
    responder: Seq<u8>,
    id: Seq<u8>,
    u: Update,
    produced_at: Timestamp,
) -> bool {
    &&& status_encodable(u.status)
    &&& encodable(u.this_update)
    &&& encodable(u.next_update)
    &&& encodable(produced_at)
    &&& response_data(responder, id, u, produced_at).len() <= MAX_CONTENT
}

fn encode_reason(reason: Option<u8>) -> (r: Vec<u8>)
    ensures
        r@ == reason_encoding(reason),
{
    match reason {
        Some(code) => {
            let mut content: Vec<u8> = Vec::new();
            content.push(code);
            assert(content@ =~= seq![code]);
            let inner = encode_tlv(TAG_ENUMERATED, content.as_slice());
            encode_tlv(TAG_CONTEXT_0, inner.as_slice())
        },
        None => Vec::new(),
    }
}

fn encode_status(s: CertStatus) -> (r: Option<Vec<u8>>)
    ensures
        match r {
            Some(bytes) => status_encodable(s) && bytes@ == cert_status_encoding(s),
            None => !status_encodable(s),
        },
{
    let nothing: Vec<u8> = Vec::new();
    assert(nothing@ =~= seq![]);
    match s {
        CertStatus::Good => Some(encode_tlv(TAG_GOOD, nothing.as_slice())),
        CertStatus::Unknown => Some(encode_tlv(TAG_UNKNOWN, nothing.as_slice())),
        CertStatus::Revoked { at, reason } => {
            let mut content = encode_time(at)?;
            let why = encode_reason(reason);
            push_bytes(&mut content, why.as_slice());
            Some(encode_tlv(TAG_CONTEXT_1, content.as_slice()))
        },
    }
}

/// Encodes the part of the answer that is signed; nothing where a date is
/// before 1970 or after 9999, or the whole is too long.
pub fn encode_response_data(responder: &[u8], id: &[u8], u: Update, produced_at: Timestamp) -> (r:
    Option<Vec<u8>>)
    ensures
        match r {
            Some(bytes) => data_encodable(responder@, id@, u, produced_at) && bytes@
                == response_data(responder@, id@, u, produced_at),
            None => !data_encodable(responder@, id@, u, produced_at),
        },
{
    let status = encode_status(u.status)?;
    let since = encode_time(u.this_update)?;
    let until = encode_time(u.next_update)?;
    let at = encode_time(produced_at)?;
    let mut single: Vec<u8> = Vec::new();
    push_bytes(&mut single, id);
    push_bytes(&mut single, status.as_slice());
    push_bytes(&mut single, since.as_slice());
    push_tlv(&mut single, TAG_CONTEXT_0, until.as_slice());
    assert(single@ =~= id@ + status@ + since@ + tlv(TAG_CONTEXT_0, until@));
    let responses = encode_tlv(TAG_SEQUENCE, single.as_slice());
    let mut data: Vec<u8> = Vec::new();
    push_tlv(&mut data, TAG_CONTEXT_1, responder);
    push_bytes(&mut data, at.as_slice());
    push_tlv(&mut data, TAG_SEQUENCE, responses.as_slice());
    assert(data@ =~= tlv(TAG_CONTEXT_1, responder@) + at@ + tlv(TAG_SEQUENCE, responses@));
    let r = encode_tlv(TAG_SEQUENCE, data.as_slice());
    if r.len() as u64 > MAX_CONTENT {
        return None;
    }
    Some(r)
}

/// The content of the identifier 1.2.840.113549.1.1.11, `sha256WithRSAEncryption`.
pub open spec fn sha256_with_rsa() -> Seq<u8> {
    seq![0x2au8, 0x86, 0x48, 0x86, 0xf7, 0x0d, 0x01, 0x01, 0x0b]
}

/// The content of the identifier 1.3.6.1.5.5.7.48.1.1, `id-pkix-ocsp-basic`.
pub open spec fn basic_response_type() -> Seq<u8> {
    seq![0x2bu8, 0x06, 0x01, 0x05, 0x05, 0x07, 0x30, 0x01, 0x01]
}

/// The signed answer, with the responder's certificate.
pub open spec fn basic_response(data: Seq<u8>, signature: Seq<u8>, certificate: Seq<u8>) -> Seq<
    u8,
> {
    tlv(
        TAG_SEQUENCE,
        data + tlv(TAG_SEQUENCE, tlv(TAG_OID, sha256_with_rsa())) + tlv(
            TAG_BIT_STRING,
            seq![0u8] + signature,
        ) + tlv(TAG_CONTEXT_0, tlv(TAG_SEQUENCE, certificate)),
    )
}

/// The whole answer to a request that succeeds.
pub open spec fn successful_response(data: Seq<u8>, signature: Seq<u8>, certificate: Seq<u8>) -> Seq<
    u8,
> {
    tlv(
        TAG_SEQUENCE,
        status_encoding(OcspResponseStatus::Successful) + tlv(
            TAG_CONTEXT_0,
            tlv(
                TAG_SEQUENCE,
                tlv(TAG_OID, basic_response_type()) + tlv(
                    TAG_OCTET_STRING,
                    basic_response(data, signature, certificate),
                ),
            ),
        ),
    )
}

/// Encodes the whole answer to a request that succeeds; nothing where it is too
/// long.
pub fn encode_successful_response(data: &[u8], signature: &[u8], certificate: &[u8]) -> (r: Option<
    Vec<u8>,
>)
    ensures
        match r {
            Some(bytes) => bytes@ == successful_response(data@, signature@, certificate@)
                && bytes@.len() <= MAX_CONTENT,
            None => successful_response(data@, signature@, certificate@).len() > MAX_CONTENT,
        },
{
    let rsa: Vec<u8> = vec![0x2a, 0x86, 0x48, 0x86, 0xf7, 0x0d, 0x01, 0x01, 0x0b];
    assert(rsa@ =~= sha256_with_rsa());
    let kind: Vec<u8> = vec![0x2b, 0x06, 0x01, 0x05, 0x05, 0x07, 0x30, 0x01, 0x01];
    assert(kind@ =~= basic_response_type());
    let mut bits: Vec<u8> = Vec::new();
    bits.push(0);
    push_bytes(&mut bits, signature);
    assert(bits@ =~= seq![0u8] + signature@);
    let rsa_oid = encode_tlv(TAG_OID, rsa.as_slice());
    let certificates = encode_tlv(TAG_SEQUENCE, certificate);
    let mut basic: Vec<u8> = Vec::new();
    push_bytes(&mut basic, data);
    push_tlv(&mut basic, TAG_SEQUENCE, rsa_oid.as_slice());
    push_tlv(&mut basic, TAG_BIT_STRING, bits.as_slice());
    push_tlv(&mut basic, TAG_CONTEXT_0, certificates.as_slice());
    assert(basic@ =~= data@ + tlv(TAG_SEQUENCE, rsa_oid@) + tlv(TAG_BIT_STRING, bits@) + tlv(
        TAG_CONTEXT_0,
        certificates@,
    ));
    let signed = encode_tlv(TAG_SEQUENCE, basic.as_slice());
    let mut inner: Vec<u8> = Vec::new();
    push_tlv(&mut inner, TAG_OID, kind.as_slice());
    push_tlv(&mut inner, TAG_OCTET_STRING, signed.as_slice());
    assert(inner@ =~= tlv(TAG_OID, kind@) + tlv(TAG_OCTET_STRING, signed@));
    let bytes = encode_tlv(TAG_SEQUENCE, inner.as_slice());
    let mut code: Vec<u8> = Vec::new();
    code.push(OcspResponseStatus::Successful.number());
    assert(code@ =~= seq![OcspResponseStatus::Successful.code()]);
    let mut outer: Vec<u8> = Vec::new();
    push_tlv(&mut outer, TAG_ENUMERATED, code.as_slice());
    push_tlv(&mut outer, TAG_CONTEXT_0, bytes.as_slice());
    assert(outer@ =~= tlv(TAG_ENUMERATED, code@) + tlv(TAG_CONTEXT_0, bytes@));
    let r = encode_tlv(TAG_SEQUENCE, outer.as_slice());
    if r.len() as u64 > MAX_CONTENT {
        return None;
    }
    Some(r)
}

/// The code of the outcome that an answer carries.
pub open spec fn outcome_of(response: Seq<u8>) -> Option<u8> {
    match split(response) {
        Some((TAG_SEQUENCE, content, _)) => match split(content) {
            Some((TAG_ENUMERATED, code, _)) => if code.len() == 1 {
                Some(code[0])
            } else {
                None
            },
            _ => None,
        },
        _ => None,
    }
}

proof fn outcome_is_first(status: OcspResponseStatus, rest: Seq<u8>)
    requires
        (status_encoding(status) + rest).len() <= MAX_CONTENT,
    ensures
        outcome_of(tlv(TAG_SEQUENCE, status_encoding(status) + rest)) == Some(status.code()),
{
    let content = status_encoding(status) + rest;
    split_of_tlv(TAG_SEQUENCE, content, seq![]);
    assert(tlv(TAG_SEQUENCE, content) + Seq::<u8>::empty() =~= tlv(TAG_SEQUENCE, content));
    split_of_tlv(TAG_ENUMERATED, seq![status.code()], rest);
}

/// A refusal says which one it is, and never reads as a success.
pub proof fn refusal_says_which(status: OcspResponseStatus)
    ensures
        outcome_of(bare_response(status)) == Some(status.code()),
        status != OcspResponseStatus::Successful ==> outcome_of(bare_response(status)) != Some(0u8),
{
    outcome_is_first(status, seq![]);
    assert(status_encoding(status) + Seq::<u8>::empty() =~= status_encoding(status));
}

/// A signed answer reads as a success.
pub proof fn success_says_so(data: Seq<u8>, signature: Seq<u8>, certificate: Seq<u8>)
    requires
        successful_response(data, signature, certificate).len() <= MAX_CONTENT,
    ensures
        outcome_of(successful_response(data, signature, certificate)) == Some(0u8),
{
    let rest = tlv(
        TAG_CONTEXT_0,
        tlv(
            TAG_SEQUENCE,
            tlv(TAG_OID, basic_response_type()) + tlv(
                TAG_OCTET_STRING,
                basic_response(data, signature, certificate),
            ),
        ),
    );
    outcome_is_first(OcspResponseStatus::Successful, rest);
}

/// Different statuses are encoded differently: no answer can be taken for
/// another.
pub proof fn statuses_are_told_apart(a: CertStatus, b: CertStatus)
    requires
        cert_status_encoding(a) == cert_status_encoding(b),
    ensures
        a is Good <==> b is Good,
        a is Revoked <==> b is Revoked,
        a is Unknown <==> b is Unknown,
{
    assert(status_tag(a) == cert_status_encoding(a)[0]);
    assert(status_tag(b) == cert_status_encoding(b)[0]);
}

spec fn status_tag(s: CertStatus) -> u8 {
    match s {
        CertStatus::Good => TAG_GOOD,
        CertStatus::Revoked { .. } => TAG_CONTEXT_1,
        CertStatus::Unknown => TAG_UNKNOWN,
    }
}

/// The content of the first encoding, where it has a tag.
pub open spec fn inside(bytes: Seq<u8>, tag: u8) -> Seq<u8> {
    match split(bytes) {
        Some((t, content, _)) => if t == tag {
            content
        } else {
            seq![]
        },
        None => seq![],
    }
}

/// What follows the first encoding.
pub open spec fn beyond(bytes: Seq<u8>) -> Seq<u8> {
    match split(bytes) {
        Some((_, _, rest)) => rest,
        None => seq![],
    }
}

/// The signed answer inside a whole one.
pub open spec fn basic_in(response: Seq<u8>) -> Seq<u8> {
    inside(
        inside(
            beyond(
                inside(inside(beyond(inside(response, TAG_SEQUENCE)), TAG_CONTEXT_0), TAG_SEQUENCE),
            ),
            TAG_OCTET_STRING,
        ),
        TAG_SEQUENCE,
    )
}

/// The part about the first certificate in the signed part of an answer.
pub open spec fn single_in(basic: Seq<u8>) -> Seq<u8> {
    inside(
        inside(beyond(beyond(inside(basic, TAG_SEQUENCE))), TAG_SEQUENCE),
        TAG_SEQUENCE,
    )
}

/// The tag of the status, in the part about one certificate.
pub open spec fn status_in(single: Seq<u8>) -> Option<u8> {
    match split(beyond(single)) {
        Some((tag, _, _)) => Some(tag),
        None => None,
    }
}

proof fn opens(tag: u8, content: Seq<u8>, rest: Seq<u8>)
    requires
        content.len() <= MAX_CONTENT,
    ensures
        inside(tlv(tag, content) + rest, tag) == content,
        beyond(tlv(tag, content) + rest) == rest,
        split(tlv(tag, content) + rest) == Some((tag, content, rest)),
        inside(tlv(tag, content), tag) == content,
{
    split_of_tlv(tag, content, rest);
    split_of_tlv(tag, content, seq![]);
    assert(tlv(tag, content) + Seq::<u8>::empty() =~= tlv(tag, content));
}

proof fn longer(tag: u8, content: Seq<u8>)
    ensures
        content.len() + 2 <= tlv(tag, content).len(),
{
}

/// What follows the signed part in a signed answer.
spec fn signature_part(signature: Seq<u8>, certificate: Seq<u8>) -> Seq<u8> {
    tlv(TAG_SEQUENCE, tlv(TAG_OID, sha256_with_rsa())) + tlv(
        TAG_BIT_STRING,
        seq![0u8] + signature,
    ) + tlv(TAG_CONTEXT_0, tlv(TAG_SEQUENCE, certificate))
}

proof fn basic_is_inside(data: Seq<u8>, signature: Seq<u8>, certificate: Seq<u8>)
    requires
        successful_response(data, signature, certificate).len() <= MAX_CONTENT,
    ensures
        basic_in(successful_response(data, signature, certificate)) == data + signature_part(
            signature,
            certificate,
        ),
        data.len() <= MAX_CONTENT,
{
    let content = data + signature_part(signature, certificate);
    let basic = basic_response(data, signature, certificate);
    assert(content =~= data + tlv(TAG_SEQUENCE, tlv(TAG_OID, sha256_with_rsa())) + tlv(
        TAG_BIT_STRING,
        seq![0u8] + signature,
    ) + tlv(TAG_CONTEXT_0, tlv(TAG_SEQUENCE, certificate)));
    let typed = tlv(TAG_OID, basic_response_type()) + tlv(TAG_OCTET_STRING, basic);
    let wrapped = tlv(TAG_SEQUENCE, typed);
    let outer = status_encoding(OcspResponseStatus::Successful) + tlv(TAG_CONTEXT_0, wrapped);
    longer(TAG_SEQUENCE, outer);
    longer(TAG_CONTEXT_0, wrapped);
    longer(TAG_SEQUENCE, typed);
    longer(TAG_OCTET_STRING, basic);
    longer(TAG_SEQUENCE, content);
    opens(TAG_SEQUENCE, outer, seq![]);
    opens(
        TAG_ENUMERATED,
        seq![OcspResponseStatus::Successful.code()],
        tlv(TAG_CONTEXT_0, wrapped),
    );
    opens(TAG_CONTEXT_0, wrapped, seq![]);
    opens(TAG_SEQUENCE, typed, seq![]);
    opens(TAG_OID, basic_response_type(), tlv(TAG_OCTET_STRING, basic));
    opens(TAG_OCTET_STRING, basic, seq![]);
    opens(TAG_SEQUENCE, content, seq![]);
}

/// The content of the part about one certificate.
spec fn single_content(id: Seq<u8>, u: Update) -> Seq<u8> {
    id + (cert_status_encoding(u.status) + (time_encoding(u.this_update) + tlv(
        TAG_CONTEXT_0,
        time_encoding(u.next_update),
    )))
}

proof fn single_is_inside(
    responder: Seq<u8>,
    id: Seq<u8>,
    u: Update,
    produced_at: Timestamp,
    rest: Seq<u8>,
)
    requires
        response_data(responder, id, u, produced_at).len() <= MAX_CONTENT,
    ensures
        single_in(response_data(responder, id, u, produced_at) + rest) == single_content(id, u),
        single_content(id, u).len() <= MAX_CONTENT,
{
    let content = single_content(id, u);
    assert(content =~= id + cert_status_encoding(u.status) + time_encoding(u.this_update) + tlv(
        TAG_CONTEXT_0,
        time_encoding(u.next_update),
    ));
    let single = tlv(TAG_SEQUENCE, content);
    let list = tlv(TAG_SEQUENCE, single);
    let named = tlv(TAG_CONTEXT_1, responder);
    let moment = (choose|d: Date| is_date_of(d, produced_at)).text();
    let at = tlv(TAG_GENERALIZED_TIME, moment);
    let body = named + (at + list);
    assert(body =~= named + at + list);
    longer(TAG_SEQUENCE, body);
    longer(TAG_CONTEXT_1, responder);
    longer(TAG_GENERALIZED_TIME, moment);
    longer(TAG_SEQUENCE, single);
    longer(TAG_SEQUENCE, content);
    opens(TAG_SEQUENCE, body, rest);
    opens(TAG_CONTEXT_1, responder, at + list);
    opens(TAG_GENERALIZED_TIME, moment, list);
    opens(TAG_SEQUENCE, single, seq![]);
    opens(TAG_SEQUENCE, content, seq![]);
}

/// Whoever reads the answer finds the identifier that was asked about, and
/// beside it the status that was given.
pub proof fn answer_carries_the_status(
    responder: Seq<u8>,
    id: Seq<u8>,
    u: Update,
    produced_at: Timestamp,
    signature: Seq<u8>,
    certificate: Seq<u8>,
)
    requires
        successful_response(
            response_data(responder, tlv(TAG_SEQUENCE, id), u, produced_at),
            signature,
            certificate,
        ).len() <= MAX_CONTENT,
    ensures
        ({
            let response = successful_response(
                response_data(responder, tlv(TAG_SEQUENCE, id), u, produced_at),
                signature,
                certificate,
            );
            let single = single_in(basic_in(response));
            &&& inside(single, TAG_SEQUENCE) == id
            &&& status_in(single) == Some(
                match u.status {
                    CertStatus::Good => TAG_GOOD,
                    CertStatus::Revoked { .. } => TAG_CONTEXT_1,
                    CertStatus::Unknown => TAG_UNKNOWN,
                },
            )
        }),
{
    let id_tlv = tlv(TAG_SEQUENCE, id);
    let data = response_data(responder, id_tlv, u, produced_at);
    basic_is_inside(data, signature, certificate);
    single_is_inside(
        responder,
        id_tlv,
        u,
        produced_at,
        signature_part(signature, certificate),
    );
    let times = time_encoding(u.this_update) + tlv(TAG_CONTEXT_0, time_encoding(u.next_update));
    let status = cert_status_encoding(u.status);
    longer(TAG_SEQUENCE, id);
    opens(TAG_SEQUENCE, id, status + times);
    match u.status {
        CertStatus::Good => opens(TAG_GOOD, seq![], times),
        CertStatus::Unknown => opens(TAG_UNKNOWN, seq![], times),
        CertStatus::Revoked { at, reason } => {
            let content = time_encoding(at) + reason_encoding(reason);
            longer(TAG_CONTEXT_1, content);
            opens(TAG_CONTEXT_1, content, times);
        },
    }
}

} // verus!
