//! Extensions of certificates and revocation lists, each with its criticality
//! set by hand rather than by a fixed rule for its type.
use vstd::prelude::*;

use der::asn1::{Ia5String, Int, ObjectIdentifier, OctetString};
use der::flagset::FlagSet;
use der::Encode;
use x509_cert::ext::pkix::certpolicy::PolicyInformation;
use x509_cert::ext::pkix::crl::dp::DistributionPoint;
use x509_cert::ext::pkix::name::{DistributionPointName, GeneralName};
use x509_cert::ext::pkix::{AccessDescription, AuthorityKeyIdentifier, BasicConstraints, KeyUsage};
use x509_cert::serial_number::SerialNumber;

use crate::asn1::{
    concatenated, tlv, MAX_CONTENT, TAG_BIT_STRING, TAG_INTEGER, TAG_OCTET_STRING, TAG_OID,
    TAG_SEQUENCE,
};
use crate::crypto::{oid_bytes, oid_content};
use crate::profile::{
    OID_BASIC_CONSTRAINTS, OID_CERTIFICATE_POLICIES, OID_CRL_ISSUED_SERIALS, OID_EXT_KEY_USAGE,
    OID_KEY_USAGE, OID_OCSP_NO_CHECK, OID_SUBJECT_ALT_NAME,
};
use crate::x509::{reads_as, Extension, ExtensionView};

verus! {

pub const OID_SUBJECT_KEY_ID: &'static str = "2.5.29.14";

pub const OID_AUTHORITY_KEY_ID: &'static str = "2.5.29.35";

pub const OID_CRL_DISTRIBUTION_POINTS: &'static str = "2.5.29.31";

pub const OID_AUTHORITY_INFO_ACCESS: &'static str = "1.3.6.1.5.5.7.1.1";

pub const OID_AD_CA_ISSUERS: &'static str = "1.3.6.1.5.5.7.48.2";

pub const OID_AD_OCSP: &'static str = "1.3.6.1.5.5.7.48.1";

pub const OID_CRL_NUMBER: &'static str = "2.5.29.20";

/// Why an extension could not be built.
#[derive(Debug)]
pub enum CaError {
    /// A value that cannot be encoded.
    Encoding(String),
}

/// The extension with an identifier, a criticality and a value.
pub open spec fn extension_with(dotted: Seq<char>, critical: bool, value: Seq<u8>) -> ExtensionView {
    ExtensionView { oid: oid_content(dotted)->0, critical, value }
}

/// The extension with an identifier, a criticality and a value was built.
pub open spec fn is_extension(
    r: Result<Extension, CaError>,
    dotted: Seq<char>,
    critical: bool,
    value: Seq<u8>,
) -> bool {
    r matches Ok(e) && e@ == extension_with(dotted, critical, value)
}

/// The extension where the value can be encoded, else an error.
pub open spec fn is_extension_if(
    r: Result<Extension, CaError>,
    encodable: bool,
    dotted: Seq<char>,
    critical: bool,
    value: Seq<u8>,
) -> bool {
    if encodable {
        is_extension(r, dotted, critical, value)
    } else {
        r matches Err(CaError::Encoding(_))
    }
}

fn known_oid(dotted: &str) -> (oid: Vec<u8>)
    requires
        oid_content(dotted@) is Some,
    ensures
        oid_content(dotted@) == Some(oid@),
{
    match oid_bytes(dotted) {
        Some(oid) => oid,
        None => Vec::new(),
    }
}

fn build(dotted: &str, critical: bool, value: Result<Vec<u8>, String>) -> (r: Result<
    Extension,
    CaError,
>)
    requires
        oid_content(dotted@) is Some,
    ensures
        match value {
            Ok(bytes) => is_extension(r, dotted@, critical, bytes@),
            Err(fault) => r == Err::<Extension, CaError>(CaError::Encoding(fault)),
        },
{
    match value {
        Err(fault) => Err(CaError::Encoding(fault)),
        Ok(value) => Ok(Extension { oid: known_oid(dotted), critical, value }),
    }
}

/// A byte as the content of an integer that is not negative.
pub open spec fn small_integer(n: u8) -> Seq<u8> {
    if n < 128 {
        seq![n]
    } else {
        seq![0u8, n]
    }
}

/// The value of `basicConstraints`: the flag where it is set, then the length.
pub open spec fn basic_constraints_value(ca: bool, path_len: Option<u8>) -> Seq<u8> {
    let flag: Seq<u8> = if ca {
        tlv(0x01, seq![0xffu8])
    } else {
        seq![]
    };
    let length: Seq<u8> = match path_len {
        Some(n) => tlv(TAG_INTEGER, small_integer(n)),
        None => seq![],
    };
    tlv(TAG_SEQUENCE, flag + length)
}

/// `BasicConstraints` as DER. What is written is read back.
#[verifier::external_body]
fn encode_basic_constraints(ca: bool, path_len: Option<u8>) -> (r: Result<Vec<u8>, String>)
    ensures
        match r {
            Ok(v) => v@ == basic_constraints_value(ca, path_len) && reads_as(
                crate::x509::authority_flag_of(v@),
                ca,
            ),
            Err(_) => false,
        },
{
    let value = BasicConstraints { ca, path_len_constraint: path_len };
    value.to_der().map_err(|e| e.to_string())
}

/// `basicConstraints`, always critical.
pub fn basic_constraints(ca: bool, path_len: Option<u8>) -> (r: Result<Extension, CaError>)
    ensures
        is_extension(r, OID_BASIC_CONSTRAINTS@, true, basic_constraints_value(ca, path_len)),
        reads_as(
            crate::x509::authority_flag_of(basic_constraints_value(ca, path_len)),
            ca,
        ),
{
    proof {
        crate::identifiers::basic_constraints_is_known();
    }
    build(OID_BASIC_CONSTRAINTS, true, encode_basic_constraints(ca, path_len))
}

/// A byte with its bits in the opposite order.
pub open spec fn mirrored(b: int) -> u8 {
    ((b % 2) * 128 + (b / 2 % 2) * 64 + (b / 4 % 2) * 32 + (b / 8 % 2) * 16 + (b / 16 % 2) * 8 + (b
        / 32 % 2) * 4 + (b / 64 % 2) * 2 + (b / 128 % 2)) as u8
}

/// How many bits of the last byte are unused, for eight flags of which some
/// are set.
pub open spec fn unused_bits(b: int) -> u8 {
    if b >= 128 {
        0
    } else if b >= 64 {
        1
    } else if b >= 32 {
        2
    } else if b >= 16 {
        3
    } else if b >= 8 {
        4
    } else if b >= 4 {
        5
    } else if b >= 2 {
        6
    } else {
        7
    }
}

/// The value of `keyUsage`: the named bits, first bit first, up to the last one
/// that is set.
pub open spec fn key_usage_value(usages: u16) -> Seq<u8> {
    if usages == 0 {
        tlv(TAG_BIT_STRING, seq![0u8])
    } else if usages < 256 {
        tlv(TAG_BIT_STRING, seq![unused_bits(usages as int), mirrored(usages as int)])
    } else {
        tlv(TAG_BIT_STRING, seq![7u8, mirrored(usages as int % 256), 0x80u8])
    }
}

/// `KeyUsage` as DER, for the nine usages that exist. What is written is read
/// back.
#[verifier::external_body]
fn encode_key_usage(usages: u16) -> (r: Result<Vec<u8>, String>)
    requires
        usages < 512,
    ensures
        match r {
            Ok(v) => v@ == key_usage_value(usages) && reads_as(
                crate::x509::key_usage_of(v@),
                usages,
            ),
            Err(_) => false,
        },
{
    KeyUsage(FlagSet::new_truncated(usages)).to_der().map_err(|e| e.to_string())
}

/// `keyUsage`, always critical. The usages are bits, the first named usage
/// being the lowest; there are nine of them.
pub fn key_usage(usages: u16) -> (r: Result<Extension, CaError>)
    requires
        usages < 512,
    ensures
        is_extension(r, OID_KEY_USAGE@, true, key_usage_value(usages)),
        reads_as(crate::x509::key_usage_of(key_usage_value(usages)), usages),
{
    proof {
        crate::identifiers::key_usage_is_known();
    }
    build(OID_KEY_USAGE, true, encode_key_usage(usages))
}

/// `OctetString` as DER.
#[verifier::external_body]
fn encode_octet_string(bytes: &[u8]) -> (r: Result<Vec<u8>, String>)
    ensures
        r is Ok <==> tlv(TAG_OCTET_STRING, bytes@).len() <= MAX_CONTENT,
        r matches Ok(v) ==> v@ == tlv(TAG_OCTET_STRING, bytes@),
{
    OctetString::new(bytes).and_then(|o| o.to_der()).map_err(|e| e.to_string())
}

/// `subjectKeyIdentifier`.
pub fn subject_key_identifier(ski: &[u8]) -> (r: Result<Extension, CaError>)
    ensures
        is_extension_if(
            r,
            tlv(TAG_OCTET_STRING, ski@).len() <= MAX_CONTENT,
            OID_SUBJECT_KEY_ID@,
            false,
            tlv(TAG_OCTET_STRING, ski@),
        ),
{
    proof {
        crate::identifiers::subject_key_id_is_known();
    }
    build(OID_SUBJECT_KEY_ID, false, encode_octet_string(ski))
}

/// A number in `k` bytes, most significant first.
pub open spec fn fixed_bytes(k: nat, n: int) -> Seq<u8>
    decreases k,
{
    if k == 0 {
        seq![]
    } else {
        fixed_bytes((k - 1) as nat, n / 256).push((n % 256) as u8)
    }
}

/// Bytes without the leading 0xff bytes that only repeat a sign bit.
pub open spec fn without_sign_padding(bytes: Seq<u8>) -> Seq<u8>
    decreases bytes.len(),
{
    if bytes.len() >= 2 && bytes[0] == 0xff && bytes[1] >= 128 {
        without_sign_padding(bytes.drop_first())
    } else {
        bytes
    }
}

/// The value of `cRLNumber`: eight bytes in two's complement, less the bytes
/// that only repeat a negative sign.
pub open spec fn crl_number_value(number: i64) -> Seq<u8> {
    let bits = if number < 0 {
        number + 0x1_0000_0000_0000_0000
    } else {
        number as int
    };
    tlv(TAG_INTEGER, without_sign_padding(fixed_bytes(8, bits)))
}

/// `Int` from eight bytes, as DER. `Int::new` takes leading 0xff bytes away
/// where the sign stays, and keeps leading zeros.
#[verifier::external_body]
fn encode_crl_number(number: i64) -> (r: Result<Vec<u8>, String>)
    ensures
        match r {
            Ok(v) => v@ == crl_number_value(number),
            Err(_) => false,
        },
{
    Int::new(&number.to_be_bytes()).and_then(|n| n.to_der()).map_err(|e| e.to_string())
}

/// `cRLNumber` (RFC 5280 §5.2.3): the number of a revocation list.
pub fn crl_number(number: i64) -> (r: Result<Extension, CaError>)
    ensures
        is_extension(r, OID_CRL_NUMBER@, false, crl_number_value(number)),
{
    proof {
        crate::identifiers::crl_number_is_known();
    }
    build(OID_CRL_NUMBER, false, encode_crl_number(number))
}

/// The value of `authorityKeyIdentifier`, with a key identifier alone.
pub open spec fn authority_key_value(ski: Seq<u8>) -> Seq<u8> {
    tlv(TAG_SEQUENCE, tlv(0x80, ski))
}

/// `AuthorityKeyIdentifier` with a key identifier alone, as DER.
#[verifier::external_body]
fn encode_authority_key(ski: &[u8]) -> (r: Result<Vec<u8>, String>)
    ensures
        r is Ok <==> authority_key_value(ski@).len() <= MAX_CONTENT,
        r matches Ok(v) ==> v@ == authority_key_value(ski@),
{
    let id = OctetString::new(ski).map_err(|e| e.to_string())?;
    let value = AuthorityKeyIdentifier { key_identifier: Some(id), ..Default::default() };
    value.to_der().map_err(|e| e.to_string())
}

/// `authorityKeyIdentifier`: the key identifier of the signer of the object
/// itself.
pub fn authority_key_identifier(parent_ski: &[u8]) -> (r: Result<Extension, CaError>)
    ensures
        is_extension_if(
            r,
            authority_key_value(parent_ski@).len() <= MAX_CONTENT,
            OID_AUTHORITY_KEY_ID@,
            false,
            authority_key_value(parent_ski@),
        ),
{
    proof {
        crate::identifiers::authority_key_id_is_known();
    }
    build(OID_AUTHORITY_KEY_ID, false, encode_authority_key(parent_ski))
}

/// Every text of a list is an object identifier.
pub open spec fn all_oids(list: Seq<Seq<char>>) -> bool {
    forall|i: int| 0 <= i < list.len() ==> oid_content(#[trigger] list[i]) is Some
}

/// The content bytes of the identifiers of a list.
pub open spec fn oid_contents(list: Seq<Seq<char>>) -> Seq<Seq<u8>> {
    list.map_values(|d: Seq<char>| oid_content(d)->0)
}

/// The encodings of contents under one tag.
pub open spec fn tagged(tag: u8, contents: Seq<Seq<u8>>) -> Seq<Seq<u8>> {
    contents.map_values(|c: Seq<u8>| tlv(tag, c))
}

/// The value of `extendedKeyUsage`: the identifiers of the purposes.
pub open spec fn purposes_value(purposes: Seq<Seq<char>>) -> Seq<u8> {
    tlv(TAG_SEQUENCE, concatenated(tagged(TAG_OID, oid_contents(purposes))))
}

/// Identifiers parsed by `ObjectIdentifier::new`, in a sequence as DER. What is
/// written is read back.
#[verifier::external_body]
fn encode_purposes(purposes: &Vec<String>) -> (r: Result<Vec<u8>, String>)
    ensures
        r is Ok <==> (all_oids(crate::text::views(purposes@)) && purposes_value(
            crate::text::views(purposes@),
        ).len() <= MAX_CONTENT),
        r matches Ok(v) ==> v@ == purposes_value(crate::text::views(purposes@))
            && reads_as(
            crate::x509::purposes_of(v@),
            oid_contents(crate::text::views(purposes@)),
        ),
{
    let oids: Result<Vec<_>, _> = purposes.iter().map(|d| ObjectIdentifier::new(d)).collect();
    oids.map_err(|e| e.to_string())?.to_der().map_err(|e| e.to_string())
}

/// `extendedKeyUsage`, critical or not: ETSI EN 319 421 §7.7.2 calls for a
/// critical one.
pub fn extended_key_usage(purposes: &Vec<String>, critical: bool) -> (r: Result<
    Extension,
    CaError,
>)
    ensures
        is_extension_if(
            r,
            all_oids(crate::text::views(purposes@)) && purposes_value(
                crate::text::views(purposes@),
            ).len() <= MAX_CONTENT,
            OID_EXT_KEY_USAGE@,
            critical,
            purposes_value(crate::text::views(purposes@)),
        ),
        r matches Ok(e) ==> reads_as(
            crate::x509::purposes_of(e@.value),
            oid_contents(crate::text::views(purposes@)),
        ),
{
    proof {
        crate::identifiers::ext_key_usage_is_known();
    }
    build(OID_EXT_KEY_USAGE, critical, encode_purposes(purposes))
}

/// Bytes without their leading zeros, but for the last byte.
pub open spec fn without_leading_zeros(bytes: Seq<u8>) -> Seq<u8>
    decreases bytes.len(),
{
    if bytes.len() >= 2 && bytes[0] == 0 {
        without_leading_zeros(bytes.drop_first())
    } else {
        bytes
    }
}

/// The content of the integer that an unsigned big-endian number is.
pub open spec fn unsigned_content(bytes: Seq<u8>) -> Seq<u8> {
    let digits = without_leading_zeros(bytes);
    if digits.len() > 0 && digits[0] >= 128 {
        seq![0u8] + digits
    } else {
        digits
    }
}

/// The contents of serial numbers.
pub open spec fn serial_contents(serials: Seq<Seq<u8>>) -> Seq<Seq<u8>> {
    serials.map_values(|s: Seq<u8>| unsigned_content(s))
}

/// Every serial number fits in twenty bytes (RFC 5280 §4.1.2.2).
pub open spec fn serials_fit(serials: Seq<Seq<u8>>) -> bool {
    forall|i: int| 0 <= i < serials.len() ==> unsigned_content(#[trigger] serials[i]).len() <= 20
}

/// No serial number is empty.
pub open spec fn serials_given(serials: Seq<Seq<u8>>) -> bool {
    forall|i: int| 0 <= i < serials.len() ==> (#[trigger] serials[i]).len() > 0
}

/// The value of the extension that lists serial numbers.
pub open spec fn serials_value(serials: Seq<Seq<u8>>) -> Seq<u8> {
    tlv(TAG_SEQUENCE, concatenated(tagged(TAG_INTEGER, serial_contents(serials))))
}

/// `SerialNumber::new` for each number, in a sequence as DER. What is written
/// is read back, where no number is empty.
#[verifier::external_body]
fn encode_serials(serials: &Vec<Vec<u8>>) -> (r: Result<Vec<u8>, String>)
    ensures
        r is Ok <==> (serials_fit(crate::x509::byte_views(serials@)) && serials_value(
            crate::x509::byte_views(serials@),
        ).len() <= MAX_CONTENT),
        r matches Ok(v) ==> v@ == serials_value(crate::x509::byte_views(serials@)),
        r matches Ok(v) ==> serials_given(crate::x509::byte_views(serials@))
            ==> reads_as(
            crate::x509::serials_of(v@),
            serial_contents(crate::x509::byte_views(serials@)),
        ),
{
    let list: Result<Vec<SerialNumber>, _> = serials.iter().map(|s| SerialNumber::new(s)).collect();
    list.and_then(|l| l.to_der()).map_err(|e| e.to_string())
}

/// The extension of a revocation list that lists every serial number ever
/// issued, so that a responder can tell a certificate that was never issued
/// from one that is good. Not critical: who ignores it reads a valid list.
pub fn crl_issued_serials(serials: &Vec<Vec<u8>>) -> (r: Result<Extension, CaError>)
    ensures
        is_extension_if(
            r,
            serials_fit(crate::x509::byte_views(serials@)) && serials_value(
                crate::x509::byte_views(serials@),
            ).len() <= MAX_CONTENT,
            OID_CRL_ISSUED_SERIALS@,
            false,
            serials_value(crate::x509::byte_views(serials@)),
        ),
        r matches Ok(e) ==> serials_given(crate::x509::byte_views(serials@))
            ==> reads_as(
            crate::x509::serials_of(e@.value),
            serial_contents(crate::x509::byte_views(serials@)),
        ),
{
    proof {
        crate::identifiers::crl_issued_serials_is_known();
    }
    build(OID_CRL_ISSUED_SERIALS, false, encode_serials(serials))
}

/// `id-pkix-ocsp-nocheck`: counts by its presence alone, its value is a NULL.
pub fn ocsp_no_check() -> (e: Extension)
    ensures
        e@ == extension_with(OID_OCSP_NO_CHECK@, false, seq![0x05u8, 0x00u8]),
        oid_content(OID_OCSP_NO_CHECK@) == Some(e@.oid),
{
    proof {
        crate::identifiers::ocsp_no_check_is_known();
    }
    let value: Vec<u8> = vec![0x05, 0x00];
    assert(value@ =~= seq![0x05u8, 0x00u8]);
    Extension { oid: known_oid(OID_OCSP_NO_CHECK), critical: false, value }
}

/// Every character is one of the first 128.
pub open spec fn is_ia5(text: Seq<char>) -> bool {
    forall|i: int| 0 <= i < text.len() ==> (#[trigger] text[i] as u32) < 128
}

/// A name of one kind, by the tag of that kind.
pub open spec fn general_name(tag: u8, text: Seq<char>) -> Seq<u8> {
    tlv(tag, vstd::utf8::encode_utf8(text))
}

/// The tag of a DNS name.
pub const TAG_DNS_NAME: u8 = 0x82;

/// The tag of a uniform resource identifier.
pub const TAG_URI: u8 = 0x86;

/// The value of `cRLDistributionPoints` with one address.
pub open spec fn distribution_point_value(url: Seq<char>) -> Seq<u8> {
    tlv(
        TAG_SEQUENCE,
        tlv(TAG_SEQUENCE, tlv(0xa0, tlv(0xa0, general_name(TAG_URI, url)))),
    )
}

/// One `DistributionPoint` with one URI as its full name, in a sequence as DER.
/// `Ia5String::new` refuses characters beyond the first 128.
#[verifier::external_body]
fn encode_distribution_point(url: &str) -> (r: Result<Vec<u8>, String>)
    ensures
        r is Ok <==> (is_ia5(url@) && distribution_point_value(url@).len() <= MAX_CONTENT),
        r matches Ok(v) ==> v@ == distribution_point_value(url@),
{
    let uri = Ia5String::new(url).map_err(|e| e.to_string())?;
    let names = vec![GeneralName::UniformResourceIdentifier(uri)];
    let point = Some(DistributionPointName::FullName(names));
    let value = DistributionPoint { distribution_point: point, reasons: None, crl_issuer: None };
    vec![value].to_der().map_err(|e| e.to_string())
}

/// `cRLDistributionPoints` with one address.
pub fn crl_distribution_point(url: &str) -> (r: Result<Extension, CaError>)
    ensures
        is_extension_if(
            r,
            is_ia5(url@) && distribution_point_value(url@).len() <= MAX_CONTENT,
            OID_CRL_DISTRIBUTION_POINTS@,
            false,
            distribution_point_value(url@),
        ),
{
    proof {
        crate::identifiers::crl_distribution_points_is_known();
    }
    build(OID_CRL_DISTRIBUTION_POINTS, false, encode_distribution_point(url))
}

/// An access method and the address that goes with it, as views.
pub open spec fn access_views(list: Seq<(String, String)>) -> Seq<(Seq<char>, Seq<char>)> {
    list.map_values(|d: (String, String)| (d.0@, d.1@))
}

/// The encoding of an access method with its address.
pub open spec fn access_description(d: (Seq<char>, Seq<char>)) -> Seq<u8> {
    tlv(TAG_SEQUENCE, tlv(TAG_OID, oid_content(d.0)->0) + general_name(TAG_URI, d.1))
}

/// The value of `authorityInfoAccess`.
pub open spec fn access_value(list: Seq<(Seq<char>, Seq<char>)>) -> Seq<u8> {
    tlv(
        TAG_SEQUENCE,
        concatenated(list.map_values(|d: (Seq<char>, Seq<char>)| access_description(d))),
    )
}

/// Every method is an identifier and every address has only the first 128
/// characters.
pub open spec fn access_encodable(list: Seq<(Seq<char>, Seq<char>)>) -> bool {
    &&& forall|i: int|
        0 <= i < list.len() ==> oid_content((#[trigger] list[i]).0) is Some && is_ia5(list[i].1)
    &&& access_value(list).len() <= MAX_CONTENT
}

/// One `AccessDescription` with a URI for each pair, in a sequence as DER.
#[verifier::external_body]
fn encode_access(list: &Vec<(String, String)>) -> (r: Result<Vec<u8>, String>)
    ensures
        r is Ok <==> access_encodable(access_views(list@)),
        r matches Ok(v) ==> v@ == access_value(access_views(list@)),
{
    let describe = |d: &(String, String)| -> Result<AccessDescription, der::Error> {
        let access_method = ObjectIdentifier::new(&d.0)?;
        let uri = Ia5String::new(&d.1)?;
        let access_location = GeneralName::UniformResourceIdentifier(uri);
        Ok(AccessDescription { access_method, access_location })
    };
    let descriptions: Result<Vec<_>, _> = list.iter().map(describe).collect();
    descriptions.and_then(|l| l.to_der()).map_err(|e| e.to_string())
}

/// The access methods with the addresses that are given.
pub open spec fn access_list(ca_issuers: Option<Seq<char>>, ocsp: Option<Seq<char>>) -> Seq<
    (Seq<char>, Seq<char>),
> {
    let first: Seq<(Seq<char>, Seq<char>)> = match ca_issuers {
        Some(url) => seq![(OID_AD_CA_ISSUERS@, url)],
        None => seq![],
    };
    let second: Seq<(Seq<char>, Seq<char>)> = match ocsp {
        Some(url) => seq![(OID_AD_OCSP@, url)],
        None => seq![],
    };
    first + second
}

/// The view of an optional text.
pub open spec fn optional_text(t: Option<&str>) -> Option<Seq<char>> {
    match t {
        Some(s) => Some(s@),
        None => None,
    }
}

/// `authorityInfoAccess`: where the issuer's certificate is found, and where
/// the responder answers.
pub fn authority_info_access(ca_issuers_url: Option<&str>, ocsp_url: Option<&str>) -> (r: Result<
    Extension,
    CaError,
>)
    ensures
        is_extension_if(
            r,
            access_encodable(
                access_list(optional_text(ca_issuers_url), optional_text(ocsp_url)),
            ),
            OID_AUTHORITY_INFO_ACCESS@,
            false,
            access_value(access_list(optional_text(ca_issuers_url), optional_text(ocsp_url))),
        ),
{
    let mut list: Vec<(String, String)> = Vec::new();
    if let Some(url) = ca_issuers_url {
        list.push((OID_AD_CA_ISSUERS.to_owned(), url.to_owned()));
    }
    if let Some(url) = ocsp_url {
        list.push((OID_AD_OCSP.to_owned(), url.to_owned()));
    }
    assert(access_views(list@) =~= access_list(
        optional_text(ca_issuers_url),
        optional_text(ocsp_url),
    ));
    proof {
        crate::identifiers::authority_info_access_is_known();
    }
    build(OID_AUTHORITY_INFO_ACCESS, false, encode_access(&list))
}

/// The value of `certificatePolicies` with one policy and no qualifier.
pub open spec fn policy_value(oid: Seq<u8>) -> Seq<u8> {
    tlv(TAG_SEQUENCE, tlv(TAG_SEQUENCE, tlv(TAG_OID, oid)))
}

/// One `PolicyInformation` without qualifiers, in a sequence as DER, for an
/// identifier parsed by `ObjectIdentifier::new`. What is written is read back.
#[verifier::external_body]
fn encode_policy(dotted: &str) -> (r: Result<Vec<u8>, String>)
    ensures
        r is Ok <==> oid_content(dotted@) is Some,
        r matches Ok(v) ==> v@ == policy_value(oid_content(dotted@)->0)
            && crate::x509::policies_of(v@) == Some(seq![oid_content(dotted@)->0]),
{
    let policy_identifier = ObjectIdentifier::new(dotted).map_err(|e| e.to_string())?;
    let info = PolicyInformation { policy_identifier, policy_qualifiers: None };
    vec![info].to_der().map_err(|e| e.to_string())
}

/// `certificatePolicies` (RFC 5280 §4.2.1.4) with one policy and no qualifier.
pub fn certificate_policy(policy_oid: &str) -> (r: Result<Extension, CaError>)
    ensures
        is_extension_if(
            r,
            oid_content(policy_oid@) is Some,
            OID_CERTIFICATE_POLICIES@,
            false,
            policy_value(oid_content(policy_oid@)->0),
        ),
        r matches Ok(e) ==> crate::x509::policies_of(e@.value) == Some(
            seq![oid_content(policy_oid@)->0],
        ),
{
    proof {
        crate::identifiers::certificate_policies_is_known();
    }
    build(OID_CERTIFICATE_POLICIES, false, encode_policy(policy_oid))
}

/// The value of `subjectAltName` with one DNS name.
pub open spec fn dns_name_value(name: Seq<char>) -> Seq<u8> {
    tlv(TAG_SEQUENCE, general_name(TAG_DNS_NAME, name))
}

/// One `GeneralName::DnsName`, in a sequence as DER. What is written is read
/// back.
#[verifier::external_body]
fn encode_dns_name(name: &str) -> (r: Result<Vec<u8>, String>)
    ensures
        r is Ok <==> (is_ia5(name@) && dns_name_value(name@).len() <= MAX_CONTENT),
        r matches Ok(v) ==> v@ == dns_name_value(name@) && crate::x509::alternative_names_of(v@)
            == Some(seq![Some(name@)]),
{
    let name = Ia5String::new(name).map_err(|e| e.to_string())?;
    vec![GeneralName::DnsName(name)].to_der().map_err(|e| e.to_string())
}

/// `subjectAltName` with one DNS name, by which a TLS client identifies the
/// server. Not critical.
pub fn subject_alt_name_dns(name: &str) -> (r: Result<Extension, CaError>)
    ensures
        is_extension_if(
            r,
            is_ia5(name@) && dns_name_value(name@).len() <= MAX_CONTENT,
            OID_SUBJECT_ALT_NAME@,
            false,
            dns_name_value(name@),
        ),
        r matches Ok(e) ==> crate::x509::alternative_names_of(e@.value) == Some(
            seq![Some(name@)],
        ),
{
    proof {
        crate::identifiers::subject_alt_name_is_known();
    }
    build(OID_SUBJECT_ALT_NAME, false, encode_dns_name(name))
}

} // verus!
