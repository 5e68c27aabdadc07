//! Checks of certificates that are read back, whatever built them: time-stamping
//! units, OCSP responders and the two ends of the internal link.
use vstd::prelude::*;
use vstd::string::StringExecFns;

use crate::clock::{Duration, Timestamp};
use crate::conformance::check_signature_algorithm;
use crate::crypto::oid_bytes;
use crate::raflow::{common_name, common_name_of};
use crate::text::{bytes_eq, concat2, concat3, signed_decimal_string, str_eq};
use crate::x509::{Certificate, CertificateView, Extension, ExtensionView};

verus! {

pub const OID_BASIC_CONSTRAINTS: &'static str = "2.5.29.19";

pub const OID_KEY_USAGE: &'static str = "2.5.29.15";

pub const OID_EXT_KEY_USAGE: &'static str = "2.5.29.37";

pub const OID_CERTIFICATE_POLICIES: &'static str = "2.5.29.32";

pub const OID_SUBJECT_ALT_NAME: &'static str = "2.5.29.17";

pub const OID_OCSP_NO_CHECK: &'static str = "1.3.6.1.5.5.7.48.1.5";

pub const OID_TIME_STAMPING: &'static str = "1.3.6.1.5.5.7.3.8";

pub const OID_OCSP_SIGNING: &'static str = "1.3.6.1.5.5.7.3.9";

pub const OID_EKU_SERVER_AUTH: &'static str = "1.3.6.1.5.5.7.3.1";

pub const OID_EKU_CLIENT_AUTH: &'static str = "1.3.6.1.5.5.7.3.2";

/// The policy of the certificate that `ra-console` presents on the internal
/// link. No other profile carries it. Provisional: enterprise number 0 is
/// reserved, and must be replaced before production.
pub const OID_POLICY_INTERNAL_CLIENT: &'static str = "1.3.6.1.4.1.0.1.1";

/// The policy of the certificate that `ca-server` presents on the internal
/// link. Provisional, as above.
pub const OID_POLICY_INTERNAL_SERVER: &'static str = "1.3.6.1.4.1.0.1.2";

/// The private extension of a revocation list that lists every serial number
/// ever issued. Provisional, as above.
pub const OID_CRL_ISSUED_SERIALS: &'static str = "1.3.6.1.4.1.0.1.3";

/// The only common name of the certificate of `ra-console`.
pub const INTERNAL_CLIENT_CN: &'static str = "ra-console";

/// The least retention of the audit log (ETSI EN 319 401 §7.10), in days.
pub const MIN_AUDIT_RETENTION_DAYS: i64 = 365;

/// The longest life of an end-entity certificate, in days.
pub const MAX_END_ENTITY_LIFETIME_DAYS: i64 = 39 * 30;

/// The longest life of an OCSP responder's certificate, in days.
pub const MAX_OCSP_LIFETIME_DAYS: i64 = 6 * 30;

/// The longest life of an issuing authority's certificate, in days.
pub const MAX_ISSUING_CA_LIFETIME_DAYS: i64 = 15 * 365;

/// The longest life of a root authority's certificate, in days.
pub const MAX_ROOT_CA_LIFETIME_DAYS: i64 = 25 * 365;

/// The longest life of a certificate of the internal link, in days: that of an
/// OCSP responder, for a software key as well.
pub const MAX_INTERNAL_LIFETIME_DAYS: i64 = MAX_OCSP_LIFETIME_DAYS;

/// ETSI EN 319 401 §7.10: the retention of the audit log must be configured,
/// and last at least the minimum.
pub fn check_audit_retention(retention: Duration) -> (r: Result<(), String>)
    ensures
        r is Ok <==> retention.nanos >= MIN_AUDIT_RETENTION_DAYS * crate::clock::NANOS_PER_DAY,
        r matches Err(text) ==> text@ == (if retention.nanos <= 0 {
            "durée de conservation du journal d'audit non configurée"@
        } else {
            "durée de conservation du journal de "@ + crate::text::signed_decimal(
                crate::clock::whole_days_of(retention.nanos as int),
            ) + " jours, minimum requis "@ + crate::text::signed_decimal(365) + " jours"@
        }),
{
    if retention.nanos <= 0 {
        return Err("durée de conservation du journal d'audit non configurée".to_owned());
    }
    let minimum = Duration::days(MIN_AUDIT_RETENTION_DAYS);
    if retention.nanos < minimum.nanos {
        let mut text = "durée de conservation du journal de ".to_owned();
        text.append(signed_decimal_string(retention.whole_days()).as_str());
        text.append(" jours, minimum requis ");
        let days: i128 = minimum.whole_days();
        assert(days == 365);
        text.append(signed_decimal_string(days).as_str());
        text.append(" jours");
        return Err(text);
    }
    Ok(())
}

/// What is said about a life that is too long.
pub open spec fn lifetime_text(subject: Seq<char>, life: int, max: int) -> Seq<char> {
    subject + ": durée de vie de "@ + crate::text::signed_decimal(
        crate::clock::whole_days_of(life),
    ) + " jours, plafond "@ + crate::text::signed_decimal(crate::clock::whole_days_of(max))
        + " jours"@
}

/// ETSI EN 319 411-1 §6.3.2: the life of a signed certificate must not exceed
/// the ceiling of its category.
pub fn check_certificate_lifetime(
    subject: &str,
    not_before: Timestamp,
    not_after: Timestamp,
    max: Duration,
) -> (r: Result<(), String>)
    requires
        not_before.valid(),
        not_after.valid(),
        max.nanos > i128::MIN,
    ensures
        r is Ok <==> not_after.nanos - not_before.nanos <= max.nanos,
        r matches Err(text) ==> text@ == lifetime_text(
            subject@,
            not_after.nanos - not_before.nanos,
            max.nanos as int,
        ),
{
    let life = not_after.since(not_before);
    if life.nanos > max.nanos {
        let mut text = concat2(subject, ": durée de vie de ");
        text.append(signed_decimal_string(life.whole_days()).as_str());
        text.append(" jours, plafond ");
        text.append(signed_decimal_string(max.whole_days()).as_str());
        text.append(" jours");
        return Err(text);
    }
    Ok(())
}

/// The first extension with an identifier, where the identifier is one.
pub open spec fn extension_named(
    extensions: Seq<ExtensionView>,
    oid: Option<Seq<u8>>,
) -> Option<ExtensionView>
    decreases extensions.len(),
{
    if extensions.len() == 0 || oid is None {
        None
    } else if extensions[0].oid == oid->0 {
        Some(extensions[0])
    } else {
        extension_named(extensions.drop_first(), oid)
    }
}

/// The first extension with an identifier in dotted notation.
pub open spec fn extension_of(
    extensions: Seq<ExtensionView>,
    dotted: Seq<char>,
) -> Option<ExtensionView> {
    extension_named(extensions, crate::crypto::oid_content(dotted))
}

/// An extension is found exactly where one with the identifier is there.
pub proof fn extension_is_found(extensions: Seq<ExtensionView>, oid: Seq<u8>)
    ensures
        extension_named(extensions, Some(oid)) is Some <==> exists|i: int|
            0 <= i < extensions.len() && (#[trigger] extensions[i]).oid == oid,
        extension_named(extensions, Some(oid)) matches Some(e) ==> e.oid == oid
            && extensions.contains(e),
    decreases extensions.len(),
{
    if extensions.len() > 0 {
        let rest = extensions.drop_first();
        extension_is_found(rest, oid);
        if extensions[0].oid == oid {
            assert(extensions.contains(extensions[0]));
        } else {
            assert(forall|i: int|
                0 <= i < rest.len() ==> #[trigger] rest[i] == extensions[i + 1]);
            if exists|i: int| 0 <= i < extensions.len() && (#[trigger] extensions[i]).oid == oid {
                let i = choose|i: int|
                    0 <= i < extensions.len() && (#[trigger] extensions[i]).oid == oid;
                assert(rest[i - 1].oid == oid);
            }
            if extension_named(rest, Some(oid)) is Some {
                let e = extension_named(rest, Some(oid))->0;
                let k = choose|k: int| 0 <= k < rest.len() && rest[k] == e;
                assert(extensions[k + 1] == e);
            }
        }
    }
}

/// Finds the first extension with an identifier, by its content bytes.
pub fn find_by_oid<'a>(extensions: &'a Vec<Extension>, target: &[u8]) -> (r: Option<
    &'a Extension,
>)
    ensures
        match r {
            Some(e) => extension_named(
                crate::x509::extension_views(extensions@),
                Some(target@),
            ) == Some(e@),
            None => extension_named(
                crate::x509::extension_views(extensions@),
                Some(target@),
            ) is None,
        },
{
    let ghost views = crate::x509::extension_views(extensions@);
    let mut i: usize = 0;
    assert(views.skip(0) =~= views);
    while i < extensions.len()
        invariant
            i <= extensions@.len(),
            views == crate::x509::extension_views(extensions@),
            extension_named(views.skip(i as int), Some(target@)) == extension_named(
                views,
                Some(target@),
            ),
        decreases extensions.len() - i,
    {
        assert(views.skip(i as int)[0] == extensions@[i as int]@);
        if bytes_eq(extensions[i].oid.as_slice(), target) {
            return Some(&extensions[i]);
        }
        assert(views.skip(i as int).drop_first() =~= views.skip(i + 1));
        i += 1;
    }
    None
}

/// Finds the first extension with an identifier in dotted notation.
pub fn find_extension<'a>(extensions: &'a Vec<Extension>, dotted: &str) -> (r: Option<
    &'a Extension,
>)
    ensures
        match r {
            Some(e) => extension_of(crate::x509::extension_views(extensions@), dotted@) == Some(
                e@,
            ),
            None => extension_of(crate::x509::extension_views(extensions@), dotted@) is None,
        },
{
    match oid_bytes(dotted) {
        Some(target) => find_by_oid(extensions, target.as_slice()),
        None => None,
    }
}

/// The first of two faults, where there is one.
pub open spec fn first_fault(a: Option<Seq<char>>, b: Option<Seq<char>>) -> Option<Seq<char>> {
    if a is Some {
        a
    } else {
        b
    }
}

/// A result that fails with the fault, where there is one.
pub open spec fn fails_with(r: Result<(), String>, fault: Option<Seq<char>>) -> bool {
    match r {
        Ok(_) => fault is None,
        Err(text) => fault == Some(text@),
    }
}

/// The signature algorithm is not admitted.
pub open spec fn algorithm_fault(subject: Seq<char>, c: CertificateView) -> Option<Seq<char>> {
    if crate::conformance::admitted_signature_algorithm(c.signature_algorithm) {
        None
    } else {
        Some(crate::conformance::refused_algorithm(subject, c.signature_algorithm))
    }
}

/// The life of a certificate, in nanoseconds.
pub open spec fn life_of(c: CertificateView) -> int {
    crate::clock::timestamp_at(c.not_after as int).nanos - crate::clock::timestamp_at(
        c.not_before as int,
    ).nanos
}

/// The certificate lives longer than a number of days.
pub open spec fn lifetime_fault(
    subject: Seq<char>,
    c: CertificateView,
    max_days: int,
) -> Option<Seq<char>> {
    let max = max_days * crate::clock::NANOS_PER_DAY;
    if life_of(c) <= max {
        None
    } else {
        Some(lifetime_text(subject, life_of(c), max))
    }
}

/// What is wrong with a flag that was read, where the extension is there and
/// can be read.
pub open spec fn flag_fault(
    subject: Seq<char>,
    flag: Option<Result<bool, Seq<char>>>,
    complaint: Seq<char>,
) -> Option<Seq<char>> {
    match flag {
        None => Some(subject + ": extension basicConstraints absente"@),
        Some(Err(fault)) => Some(subject + ": basicConstraints illisible: "@ + fault),
        Some(Ok(ca)) => if ca {
            Some(subject + complaint)
        } else {
            None
        },
    }
}

/// The flag of the `basicConstraints` extension.
pub open spec fn flag_of(c: CertificateView) -> Option<Result<bool, Seq<char>>> {
    match extension_of(c.extensions, OID_BASIC_CONSTRAINTS@) {
        None => None,
        Some(e) => Some(crate::x509::authority_flag_of(e.value)),
    }
}

/// The certificate does not say that it is not an authority's.
pub open spec fn authority_fault(
    subject: Seq<char>,
    c: CertificateView,
    complaint: Seq<char>,
) -> Option<Seq<char>> {
    flag_fault(subject, flag_of(c), complaint)
}

/// What the `keyUsage` extension must say.
#[derive(Clone, Copy)]
pub enum UsageRule {
    /// Nothing but `digitalSignature` and `nonRepudiation`, and one of them.
    SigningOnly,
    /// `digitalSignature` among others.
    Signing,
}

/// The bits of the two signing usages.
pub open spec fn signing_bits(bits: u16) -> bool {
    bits & 0xfffc == 0
}

/// What is wrong with usages that were read, where the extension is there and
/// can be read.
pub open spec fn bits_fault(
    subject: Seq<char>,
    usages: Option<Result<u16, Seq<char>>>,
    rule: UsageRule,
) -> Option<Seq<char>> {
    match usages {
        None => Some(subject + ": extension keyUsage absente"@),
        Some(Err(fault)) => Some(subject + ": keyUsage illisible: "@ + fault),
        Some(Ok(bits)) => match rule {
            UsageRule::SigningOnly => if bits == 0 {
                Some(subject + ": keyUsage vide"@)
            } else if !signing_bits(bits) {
                Some(subject + ": keyUsage déborde de digitalSignature/nonRepudiation"@)
            } else {
                None
            },
            UsageRule::Signing => if bits & 1 == 0 {
                Some(subject + ": keyUsage ne porte pas digitalSignature"@)
            } else {
                None
            },
        },
    }
}

/// The usages of the `keyUsage` extension.
pub open spec fn usages_of(c: CertificateView) -> Option<Result<u16, Seq<char>>> {
    match extension_of(c.extensions, OID_KEY_USAGE@) {
        None => None,
        Some(e) => Some(crate::x509::key_usage_of(e.value)),
    }
}

/// The `keyUsage` extension is missing, cannot be read or breaks its rule.
pub open spec fn usage_fault(
    subject: Seq<char>,
    c: CertificateView,
    rule: UsageRule,
) -> Option<Seq<char>> {
    bits_fault(subject, usages_of(c), rule)
}

/// What was read, with the text of the fault as a view.
pub open spec fn read_view<T>(read: Option<Result<T, String>>) -> Option<Result<T, Seq<char>>> {
    match read {
        None => None,
        Some(Ok(value)) => Some(Ok(value)),
        Some(Err(fault)) => Some(Err(fault@)),
    }
}

/// Judges a flag that was read.
pub fn judge_flag(
    subject: &str,
    flag: Option<Result<bool, String>>,
    complaint: &str,
) -> (r: Result<(), String>)
    ensures
        fails_with(r, flag_fault(subject@, read_view(flag), complaint@)),
{
    match flag {
        None => Err(concat2(subject, ": extension basicConstraints absente")),
        Some(Err(fault)) => Err(
            concat3(subject, ": basicConstraints illisible: ", fault.as_str()),
        ),
        Some(Ok(ca)) => if ca {
            Err(concat2(subject, complaint))
        } else {
            Ok(())
        },
    }
}

/// Judges usages that were read.
pub fn judge_usages(
    subject: &str,
    usages: Option<Result<u16, String>>,
    rule: UsageRule,
) -> (r: Result<(), String>)
    ensures
        fails_with(r, bits_fault(subject@, read_view(usages), rule)),
{
    match usages {
        None => Err(concat2(subject, ": extension keyUsage absente")),
        Some(Err(fault)) => Err(concat3(subject, ": keyUsage illisible: ", fault.as_str())),
        Some(Ok(bits)) => match rule {
            UsageRule::SigningOnly => if bits == 0 {
                Err(concat2(subject, ": keyUsage vide"))
            } else if bits & 0xfffc != 0 {
                Err(concat2(subject, ": keyUsage déborde de digitalSignature/nonRepudiation"))
            } else {
                Ok(())
            },
            UsageRule::Signing => if bits & 1 == 0 {
                Err(concat2(subject, ": keyUsage ne porte pas digitalSignature"))
            } else {
                Ok(())
            },
        },
    }
}

fn check_lifetime_of(subject: &str, c: &Certificate, max_days: i64) -> (r: Result<(), String>)
    requires
        0 <= max_days <= 100_000,
    ensures
        fails_with(r, lifetime_fault(subject@, c@, max_days as int)),
{
    check_certificate_lifetime(
        subject,
        Timestamp::from_unix_seconds(c.not_before),
        Timestamp::from_unix_seconds(c.not_after),
        Duration::days(max_days),
    )
}

fn check_not_authority(subject: &str, c: &Certificate, complaint: &str) -> (r: Result<(), String>)
    ensures
        fails_with(r, authority_fault(subject@, c@, complaint@)),
{
    let flag = match find_extension(&c.extensions, OID_BASIC_CONSTRAINTS) {
        None => None,
        Some(e) => Some(crate::x509::read_authority_flag(e.value.as_slice())),
    };
    assert(read_view(flag) == flag_of(c@));
    judge_flag(subject, flag, complaint)
}

fn check_usage(subject: &str, c: &Certificate, rule: UsageRule) -> (r: Result<(), String>)
    ensures
        fails_with(r, usage_fault(subject@, c@, rule)),
{
    let usages = match find_extension(&c.extensions, OID_KEY_USAGE) {
        None => None,
        Some(e) => Some(crate::x509::read_key_usage(e.value.as_slice())),
    };
    assert(read_view(usages) == usages_of(c@));
    judge_usages(subject, usages, rule)
}

/// What the `extendedKeyUsage` extension must list.
#[derive(Clone, Copy)]
pub struct PurposeRule {
    /// The extension must be critical.
    pub critical: bool,
    /// The purpose must be the only one.
    pub only: bool,
}

/// The purposes meet the rule for a purpose, where its identifier is one.
pub open spec fn purposes_meet(
    purposes: Seq<Seq<u8>>,
    rule: PurposeRule,
    purpose: Option<Seq<u8>>,
) -> bool {
    match purpose {
        None => false,
        Some(oid) => if rule.only {
            purposes == seq![oid]
        } else {
            purposes.contains(oid)
        },
    }
}

/// What is wrong with purposes that were read, where the extension is there and
/// can be read. The flag tells whether the extension is critical.
pub open spec fn purposes_fault(
    subject: Seq<char>,
    purposes: Option<(bool, Result<Seq<Seq<u8>>, Seq<char>>)>,
    rule: PurposeRule,
    purpose: Option<Seq<u8>>,
    complaint: Seq<char>,
) -> Option<Seq<char>> {
    match purposes {
        None => Some(subject + ": extension extendedKeyUsage absente"@),
        Some((critical, read)) => if rule.critical && !critical {
            Some(subject + ": extension extendedKeyUsage non marquée critique"@)
        } else {
            match read {
                Err(fault) => Some(subject + ": extendedKeyUsage illisible: "@ + fault),
                Ok(list) => if purposes_meet(list, rule, purpose) {
                    None
                } else {
                    Some(subject + complaint)
                },
            }
        },
    }
}

/// The purposes of the `extendedKeyUsage` extension.
pub open spec fn purposes_in(c: CertificateView) -> Option<
    (bool, Result<Seq<Seq<u8>>, Seq<char>>),
> {
    match extension_of(c.extensions, OID_EXT_KEY_USAGE@) {
        None => None,
        Some(e) => Some((e.critical, crate::x509::purposes_of(e.value))),
    }
}

/// The `extendedKeyUsage` extension is missing, cannot be read or breaks its
/// rule.
pub open spec fn purpose_fault(
    subject: Seq<char>,
    c: CertificateView,
    rule: PurposeRule,
    dotted: Seq<char>,
    complaint: Seq<char>,
) -> Option<Seq<char>> {
    purposes_fault(
        subject,
        purposes_in(c),
        rule,
        crate::crypto::oid_content(dotted),
        complaint,
    )
}

/// Purposes that were read, as views.
pub open spec fn purposes_view(
    purposes: Option<(bool, Result<Vec<Vec<u8>>, String>)>,
) -> Option<(bool, Result<Seq<Seq<u8>>, Seq<char>>)> {
    match purposes {
        None => None,
        Some((critical, Ok(list))) => Some((critical, Ok(crate::x509::byte_views(list@)))),
        Some((critical, Err(fault))) => Some((critical, Err(fault@))),
    }
}

/// Finds a byte string in a list.
pub fn contains_bytes(list: &Vec<Vec<u8>>, wanted: &[u8]) -> (r: bool)
    ensures
        r == crate::x509::byte_views(list@).contains(wanted@),
{
    let ghost views = crate::x509::byte_views(list@);
    let mut i: usize = 0;
    while i < list.len()
        invariant
            i <= list@.len(),
            views == crate::x509::byte_views(list@),
            forall|k: int| 0 <= k < i ==> #[trigger] views[k] != wanted@,
        decreases list.len() - i,
    {
        if bytes_eq(list[i].as_slice(), wanted) {
            assert(views[i as int] == wanted@);
            return true;
        }
        i += 1;
    }
    false
}

/// Judges purposes that were read.
pub fn judge_purposes(
    subject: &str,
    purposes: Option<(bool, Result<Vec<Vec<u8>>, String>)>,
    rule: PurposeRule,
    purpose: Option<Vec<u8>>,
    complaint: &str,
) -> (r: Result<(), String>)
    ensures
        fails_with(
            r,
            purposes_fault(
                subject@,
                purposes_view(purposes),
                rule,
                crate::castore::optional_bytes(purpose),
                complaint@,
            ),
        ),
{
    let (critical, read) = match purposes {
        None => return Err(concat2(subject, ": extension extendedKeyUsage absente")),
        Some(p) => p,
    };
    if rule.critical && !critical {
        return Err(concat2(subject, ": extension extendedKeyUsage non marquée critique"));
    }
    let list = match read {
        Err(fault) => return Err(
            concat3(subject, ": extendedKeyUsage illisible: ", fault.as_str()),
        ),
        Ok(list) => list,
    };
    let met = match &purpose {
        None => false,
        Some(oid) => if rule.only {
            let one = list.len() == 1 && bytes_eq(list[0].as_slice(), oid.as_slice());
            proof {
                let views = crate::x509::byte_views(list@);
                if one {
                    assert(views =~= seq![oid@]);
                }
                if views == seq![oid@] {
                    assert(views.len() == 1);
                    assert(views[0] == oid@);
                    assert(list@[0]@ == oid@);
                }
                assert(one == (views == seq![oid@]));
            }
            one
        } else {
            contains_bytes(&list, oid.as_slice())
        },
    };
    assert(met == purposes_meet(
        crate::x509::byte_views(list@),
        rule,
        crate::castore::optional_bytes(purpose),
    ));
    if met {
        Ok(())
    } else {
        Err(concat2(subject, complaint))
    }
}

fn check_purpose(
    subject: &str,
    c: &Certificate,
    rule: PurposeRule,
    dotted: &str,
    complaint: &str,
) -> (r: Result<(), String>)
    ensures
        fails_with(r, purpose_fault(subject@, c@, rule, dotted@, complaint@)),
{
    let purposes = match find_extension(&c.extensions, OID_EXT_KEY_USAGE) {
        None => None,
        Some(e) => Some((e.critical, crate::x509::read_purposes(e.value.as_slice()))),
    };
    assert(purposes_view(purposes) == purposes_in(c@));
    judge_purposes(subject, purposes, rule, oid_bytes(dotted), complaint)
}

/// What keeps a certificate from being that of a time-stamping unit.
pub open spec fn tsu_fault(subject: Seq<char>, c: CertificateView) -> Option<Seq<char>> {
    first_fault(
        algorithm_fault(subject, c),
        first_fault(
            lifetime_fault(subject, c, MAX_END_ENTITY_LIFETIME_DAYS as int),
            first_fault(
                authority_fault(
                    subject,
                    c,
                    ": le certificat TSU porte basicConstraints CA:TRUE"@,
                ),
                first_fault(
                    purpose_fault(
                        subject,
                        c,
                        PurposeRule { critical: true, only: true },
                        OID_TIME_STAMPING@,
                        ": extendedKeyUsage doit contenir uniquement id-kp-timeStamping"@,
                    ),
                    usage_fault(subject, c, UsageRule::SigningOnly),
                ),
            ),
        ),
    )
}

/// ETSI EN 319 421 §7.7.2: the certificate of a time-stamping unit is no
/// authority's, has id-kp-timeStamping as its only purpose, marked critical,
/// signs and does nothing else, and does not live too long.
pub fn check_tsu_certificate(subject: &str, cert: &Certificate) -> (r: Result<(), String>)
    ensures
        fails_with(r, tsu_fault(subject@, cert@)),
{
    check_signature_algorithm(subject, cert.signature_algorithm.as_str())?;
    check_lifetime_of(subject, cert, MAX_END_ENTITY_LIFETIME_DAYS)?;
    check_not_authority(subject, cert, ": le certificat TSU porte basicConstraints CA:TRUE")?;
    check_purpose(
        subject,
        cert,
        PurposeRule { critical: true, only: true },
        OID_TIME_STAMPING,
        ": extendedKeyUsage doit contenir uniquement id-kp-timeStamping",
    )?;
    check_usage(subject, cert, UsageRule::SigningOnly)
}

/// The extension that exempts a responder from revocation checks is missing.
pub open spec fn no_check_fault(subject: Seq<char>, c: CertificateView) -> Option<Seq<char>> {
    if extension_of(c.extensions, OID_OCSP_NO_CHECK@) is None {
        Some(subject + ": extension id-pkix-ocsp-nocheck absente"@)
    } else {
        None
    }
}

/// What keeps a certificate from being that of an OCSP responder.
pub open spec fn ocsp_responder_fault(subject: Seq<char>, c: CertificateView) -> Option<
    Seq<char>,
> {
    first_fault(
        algorithm_fault(subject, c),
        first_fault(
            lifetime_fault(subject, c, MAX_OCSP_LIFETIME_DAYS as int),
            first_fault(
                authority_fault(
                    subject,
                    c,
                    ": le certificat du répondeur porte basicConstraints CA:TRUE"@,
                ),
                first_fault(
                    purpose_fault(
                        subject,
                        c,
                        PurposeRule { critical: false, only: false },
                        OID_OCSP_SIGNING@,
                        ": extendedKeyUsage id-kp-OCSPSigning absent"@,
                    ),
                    first_fault(
                        no_check_fault(subject, c),
                        usage_fault(subject, c, UsageRule::Signing),
                    ),
                ),
            ),
        ),
    )
}

/// RFC 6960 §4.2.2.2: the certificate of an OCSP responder is no authority's,
/// has id-kp-OCSPSigning among its purposes, carries id-pkix-ocsp-nocheck,
/// signs, and in return for that exemption lives a short time.
pub fn check_ocsp_responder_certificate(subject: &str, cert: &Certificate) -> (r: Result<
    (),
    String,
>)
    ensures
        fails_with(r, ocsp_responder_fault(subject@, cert@)),
{
    check_signature_algorithm(subject, cert.signature_algorithm.as_str())?;
    check_lifetime_of(subject, cert, MAX_OCSP_LIFETIME_DAYS)?;
    check_not_authority(
        subject,
        cert,
        ": le certificat du répondeur porte basicConstraints CA:TRUE",
    )?;
    check_purpose(
        subject,
        cert,
        PurposeRule { critical: false, only: false },
        OID_OCSP_SIGNING,
        ": extendedKeyUsage id-kp-OCSPSigning absent",
    )?;
    if find_extension(&cert.extensions, OID_OCSP_NO_CHECK).is_none() {
        return Err(concat2(subject, ": extension id-pkix-ocsp-nocheck absente"));
    }
    check_usage(subject, cert, UsageRule::Signing)
}

/// The certificate carries the policy in dotted notation.
pub open spec fn carries_policy(c: CertificateView, dotted: Seq<char>) -> bool {
    match (
        crate::crypto::oid_content(dotted),
        extension_of(c.extensions, OID_CERTIFICATE_POLICIES@),
    ) {
        (Some(policy), Some(e)) => match crate::x509::policies_of(e.value) {
            Some(policies) => policies.contains(policy),
            None => false,
        },
        _ => false,
    }
}

/// Whether the certificate carries this policy in `certificatePolicies`.
pub fn has_certificate_policy(cert: &Certificate, policy_oid: &str) -> (r: bool)
    ensures
        r == carries_policy(cert@, policy_oid@),
{
    let target = match oid_bytes(policy_oid) {
        Some(target) => target,
        None => return false,
    };
    match find_extension(&cert.extensions, OID_CERTIFICATE_POLICIES) {
        None => false,
        Some(e) => match crate::x509::read_policies(e.value.as_slice()) {
            None => false,
            Some(policies) => contains_bytes(&policies, target.as_slice()),
        },
    }
}

/// The texts that are there, in order.
pub open spec fn present(names: Seq<Option<Seq<char>>>) -> Seq<Seq<char>>
    decreases names.len(),
{
    if names.len() == 0 {
        seq![]
    } else {
        match names.last() {
            Some(text) => present(names.drop_last()).push(text),
            None => present(names.drop_last()),
        }
    }
}

/// The texts that are there, in order.
pub fn present_names(names: &Vec<Option<String>>) -> (r: Vec<String>)
    ensures
        crate::text::views(r@) == present(crate::x509::optional_views(names@)),
{
    let mut out: Vec<String> = Vec::new();
    let ghost all = crate::x509::optional_views(names@);
    let mut i: usize = 0;
    assert(crate::text::views(out@) =~= present(all.take(0)));
    while i < names.len()
        invariant
            i <= names@.len(),
            all == crate::x509::optional_views(names@),
            crate::text::views(out@) == present(all.take(i as int)),
        decreases names.len() - i,
    {
        let ghost before = out@;
        assert(all.take(i + 1).drop_last() =~= all.take(i as int));
        match &names[i] {
            Some(text) => {
                out.push(text.clone());
                assert(crate::text::views(out@) =~= crate::text::views(before).push(text@));
            },
            None => {},
        }
        i += 1;
    }
    assert(all.take(all.len() as int) =~= all);
    out
}

/// The DNS names of the `subjectAltName` extension; none where the extension is
/// missing or cannot be read.
pub open spec fn dns_names_of(c: CertificateView) -> Seq<Seq<char>> {
    match extension_of(c.extensions, OID_SUBJECT_ALT_NAME@) {
        None => seq![],
        Some(e) => match crate::x509::alternative_names_of(e.value) {
            Some(names) => present(names),
            None => seq![],
        },
    }
}

/// The DNS names of the `subjectAltName` extension.
pub fn dns_names(cert: &Certificate) -> (r: Vec<String>)
    ensures
        crate::text::views(r@) == dns_names_of(cert@),
{
    let out: Vec<String> = Vec::new();
    let e = match find_extension(&cert.extensions, OID_SUBJECT_ALT_NAME) {
        None => {
            assert(crate::text::views(out@) =~= dns_names_of(cert@));
            return out;
        },
        Some(e) => e,
    };
    let names = match crate::x509::read_alternative_names(e.value.as_slice()) {
        None => {
            assert(crate::text::views(out@) =~= dns_names_of(cert@));
            return out;
        },
        Some(names) => names,
    };
    present_names(&names)
}

/// The policy of the internal link is missing.
pub open spec fn policy_fault(
    subject: Seq<char>,
    c: CertificateView,
    dotted: Seq<char>,
) -> Option<Seq<char>> {
    if carries_policy(c, dotted) {
        None
    } else {
        Some(subject + ": politique "@ + dotted + " absente"@)
    }
}

/// What keeps a certificate from being one of the internal link, for a purpose
/// and a policy.
pub open spec fn internal_fault(
    subject: Seq<char>,
    c: CertificateView,
    purpose: Seq<char>,
    policy: Seq<char>,
) -> Option<Seq<char>> {
    first_fault(
        algorithm_fault(subject, c),
        first_fault(
            lifetime_fault(subject, c, MAX_INTERNAL_LIFETIME_DAYS as int),
            first_fault(
                authority_fault(subject, c, ": basicConstraints CA:TRUE"@),
                first_fault(
                    purpose_fault(
                        subject,
                        c,
                        PurposeRule { critical: false, only: true },
                        purpose,
                        ": extendedKeyUsage doit contenir uniquement "@ + purpose,
                    ),
                    first_fault(
                        policy_fault(subject, c, policy),
                        usage_fault(subject, c, UsageRule::Signing),
                    ),
                ),
            ),
        ),
    )
}

fn check_internal_certificate(
    subject: &str,
    cert: &Certificate,
    eku_oid: &str,
    policy_oid: &str,
) -> (r: Result<(), String>)
    ensures
        fails_with(r, internal_fault(subject@, cert@, eku_oid@, policy_oid@)),
{
    check_signature_algorithm(subject, cert.signature_algorithm.as_str())?;
    check_lifetime_of(subject, cert, MAX_INTERNAL_LIFETIME_DAYS)?;
    check_not_authority(subject, cert, ": basicConstraints CA:TRUE")?;
    let complaint = concat2(": extendedKeyUsage doit contenir uniquement ", eku_oid);
    check_purpose(
        subject,
        cert,
        PurposeRule { critical: false, only: true },
        eku_oid,
        complaint.as_str(),
    )?;
    if !has_certificate_policy(cert, policy_oid) {
        return Err(concat2(concat3(subject, ": politique ", policy_oid).as_str(), " absente"));
    }
    check_usage(subject, cert, UsageRule::Signing)
}

/// Checks the certificate that `ra-console` presents to `ca-server`.
pub fn check_internal_client_certificate(subject: &str, cert: &Certificate) -> (r: Result<
    (),
    String,
>)
    ensures
        fails_with(
            r,
            internal_fault(
                subject@,
                cert@,
                OID_EKU_CLIENT_AUTH@,
                OID_POLICY_INTERNAL_CLIENT@,
            ),
        ),
{
    check_internal_certificate(subject, cert, OID_EKU_CLIENT_AUTH, OID_POLICY_INTERNAL_CLIENT)
}

/// What keeps a certificate from being that of the server on the internal link:
/// the common rules, at least one DNS name, and a common name that is one of
/// them, since that is the name the client expects.
pub open spec fn internal_server_fault(subject: Seq<char>, c: CertificateView) -> Option<
    Seq<char>,
> {
    first_fault(
        internal_fault(subject, c, OID_EKU_SERVER_AUTH@, OID_POLICY_INTERNAL_SERVER@),
        server_name_fault(subject, dns_names_of(c), common_name_of(c.subject)),
    )
}

/// What is wrong with the names of a server.
pub open spec fn server_name_fault(
    subject: Seq<char>,
    names: Seq<Seq<char>>,
    cn: Seq<char>,
) -> Option<Seq<char>> {
    if names.len() == 0 {
        Some(subject + ": subjectAltName dNSName absent"@)
    } else if !names.contains(cn) {
        Some(subject + ": CN différent du subjectAltName dNSName"@)
    } else {
        None
    }
}

/// Judges the names of a server: its DNS names and its common name.
pub fn judge_server_names(subject: &str, names: &Vec<String>, cn: &str) -> (r: Result<(), String>)
    ensures
        fails_with(r, server_name_fault(subject@, crate::text::views(names@), cn@)),
{
    let ghost all = crate::text::views(names@);
    if names.len() == 0 {
        return Err(concat2(subject, ": subjectAltName dNSName absent"));
    }
    let mut i: usize = 0;
    while i < names.len()
        invariant
            i <= names@.len(),
            all == crate::text::views(names@),
            forall|k: int| 0 <= k < i ==> #[trigger] all[k] != cn@,
        decreases names.len() - i,
    {
        if str_eq(names[i].as_str(), cn) {
            assert(all[i as int] == cn@);
            return Ok(());
        }
        i += 1;
    }
    Err(concat2(subject, ": CN différent du subjectAltName dNSName"))
}

/// Checks the certificate that `ca-server` presents on the internal link.
pub fn check_internal_server_certificate(subject: &str, cert: &Certificate) -> (r: Result<
    (),
    String,
>)
    ensures
        fails_with(r, internal_server_fault(subject@, cert@)),
{
    check_internal_certificate(subject, cert, OID_EKU_SERVER_AUTH, OID_POLICY_INTERNAL_SERVER)?;
    let names = dns_names(cert);
    let cn = common_name(cert.subject.as_slice());
    judge_server_names(subject, &names, cn.as_str())
}

/// A certificate of one end of the internal link never passes for the other
/// end's.
pub proof fn internal_ends_are_apart(subject: Seq<char>, c: CertificateView)
    requires
        internal_fault(subject, c, OID_EKU_CLIENT_AUTH@, OID_POLICY_INTERNAL_CLIENT@) is None,
    ensures
        internal_server_fault(subject, c) is Some,
{
    crate::identifiers::eku_client_auth_is_known();
    crate::identifiers::eku_server_auth_is_known();
    if internal_server_fault(subject, c) is None {
        let e = extension_of(c.extensions, OID_EXT_KEY_USAGE@)->0;
        let purposes = crate::x509::purposes_of(e.value)->Ok_0;
        let client = crate::crypto::oid_content(OID_EKU_CLIENT_AUTH@)->0;
        let server = crate::crypto::oid_content(OID_EKU_SERVER_AUTH@)->0;
        assert(purposes[0] == client);
        assert(purposes[0] == server);
        assert(client[7] != server[7]);
    }
}

/// A certificate of a time-stamping unit never passes for a responder's.
pub proof fn unit_and_responder_are_apart(subject: Seq<char>, c: CertificateView)
    requires
        tsu_fault(subject, c) is None,
    ensures
        ocsp_responder_fault(subject, c) is Some,
{
    crate::identifiers::time_stamping_is_known();
    crate::identifiers::ocsp_signing_is_known();
    if ocsp_responder_fault(subject, c) is None {
        let e = extension_of(c.extensions, OID_EXT_KEY_USAGE@)->0;
        let purposes = crate::x509::purposes_of(e.value)->Ok_0;
        let unit = crate::crypto::oid_content(OID_TIME_STAMPING@)->0;
        let responder = crate::crypto::oid_content(OID_OCSP_SIGNING@)->0;
        assert(purposes[0] == unit);
        assert(purposes.contains(responder));
        assert(unit[7] != responder[7]);
    }
}

/// A certificate that passes any of the checks is signed with an admitted
/// algorithm, is no authority's, and lives no longer than an end entity may.
pub proof fn checked_certificates_are_safe(subject: Seq<char>, c: CertificateView)
    requires
        tsu_fault(subject, c) is None || ocsp_responder_fault(subject, c) is None
            || internal_server_fault(subject, c) is None || internal_fault(
            subject,
            c,
            OID_EKU_CLIENT_AUTH@,
            OID_POLICY_INTERNAL_CLIENT@,
        ) is None,
    ensures
        crate::conformance::admitted_signature_algorithm(c.signature_algorithm),
        life_of(c) <= MAX_END_ENTITY_LIFETIME_DAYS * crate::clock::NANOS_PER_DAY,
        extension_of(c.extensions, OID_BASIC_CONSTRAINTS@) matches Some(e)
            && crate::x509::authority_flag_of(e.value) == Ok::<bool, Seq<char>>(false),
{
}

} // verus!
