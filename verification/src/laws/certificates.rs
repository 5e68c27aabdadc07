//! What the checks of certificates promise: a certificate passes exactly where
//! it meets every rule, and one that does not is told which rule it breaks.
use vstd::prelude::*;

use crate::conformance::admitted_signature_algorithm;
use crate::laws::responder::{absent, first_at, first_extension_counts};
use crate::profile::{
    algorithm_fault, authority_fault, carries_policy, dns_names_of, extension_named,
    internal_fault, internal_server_fault, lifetime_fault, no_check_fault, ocsp_responder_fault,
    policy_fault, present, purpose_fault, server_name_fault, tsu_fault, usage_fault, PurposeRule,
    UsageRule,
};
use crate::raflow::common_name_of;
use crate::x509::{
    alternative_names_of, authority_flag_of, key_usage_of, policies_of, purposes_of,
    CertificateView, ExtensionView,
};

verus! {

/// The extension with an identifier that counts: the first.
pub open spec fn extension(c: CertificateView, oid: Seq<u8>) -> Option<ExtensionView> {
    extension_named(c.extensions, Some(oid))
}

/// The extension that counts is the first with its identifier, and there is none
/// where no extension has it.
pub proof fn extension_is_the_first(c: CertificateView, oid: Seq<u8>, k: int)
    ensures
        first_at(c.extensions, oid, k) ==> extension(c, oid) == Some(c.extensions[k]),
        absent(c.extensions, oid) ==> extension(c, oid) is None,
{
    first_extension_counts(c.extensions, oid, k);
}

/// Seconds since the epoch, where they are before the year 10000.
pub open spec fn dated(seconds: nat) -> int {
    if seconds <= 253_402_300_799 {
        seconds as int
    } else {
        0
    }
}

/// The certificate lives no longer than a number of days.
pub open spec fn lives_at_most(c: CertificateView, days: int) -> bool {
    dated(c.not_after) - dated(c.not_before) <= days * 86_400
}

/// Signed with SHA-256, SHA-384 or SHA-512 and RSA.
pub open spec fn signed_well(c: CertificateView) -> bool {
    ||| c.signature_algorithm == "1.2.840.113549.1.1.11"@
    ||| c.signature_algorithm == "1.2.840.113549.1.1.12"@
    ||| c.signature_algorithm == "1.2.840.113549.1.1.13"@
}

/// `basicConstraints` is there, can be read, and says that this is no authority.
pub open spec fn no_authority(c: CertificateView) -> bool {
    extension(c, seq![0x55u8, 0x1d, 0x13]) matches Some(e) && authority_flag_of(e.value) == Ok::<
        bool,
        Seq<char>,
    >(false)
}

/// `keyUsage` is there, can be read, and has `digitalSignature`, the lowest bit.
pub open spec fn signs(c: CertificateView) -> bool {
    extension(c, seq![0x55u8, 0x1d, 0x0f]) matches Some(e) && (key_usage_of(e.value) matches Ok(
        bits,
    ) && bits % 2 == 1)
}

/// `keyUsage` is there, can be read, and has one or both of the two lowest bits,
/// `digitalSignature` and `nonRepudiation`, and no other.
pub open spec fn signs_only(c: CertificateView) -> bool {
    extension(c, seq![0x55u8, 0x1d, 0x0f]) matches Some(e) && (key_usage_of(e.value) matches Ok(
        bits,
    ) && 1 <= bits <= 3)
}

/// `extendedKeyUsage` is there, can be read, and lists one purpose alone.
pub open spec fn serves_only(c: CertificateView, purpose: Seq<u8>) -> bool {
    extension(c, seq![0x55u8, 0x1d, 0x25]) matches Some(e) && purposes_of(e.value) == Ok::<
        Seq<Seq<u8>>,
        Seq<char>,
    >(seq![purpose])
}

/// `extendedKeyUsage` is marked critical.
pub open spec fn purpose_is_critical(c: CertificateView) -> bool {
    extension(c, seq![0x55u8, 0x1d, 0x25]) matches Some(e) && e.critical
}

/// `extendedKeyUsage` is there, can be read, and lists a purpose among others.
pub open spec fn serves(c: CertificateView, purpose: Seq<u8>) -> bool {
    extension(c, seq![0x55u8, 0x1d, 0x25]) matches Some(e) && (purposes_of(e.value) matches Ok(
        list,
    ) && list.contains(purpose))
}

/// `certificatePolicies` is there, can be read, and lists a policy.
pub open spec fn follows_policy(c: CertificateView, policy: Seq<u8>) -> bool {
    extension(c, seq![0x55u8, 0x1d, 0x20]) matches Some(e) && (policies_of(e.value) matches Some(
        list,
    ) && list.contains(policy))
}

/// The purposes id-kp-serverAuth, id-kp-clientAuth, id-kp-timeStamping and
/// id-kp-OCSPSigning, by their last number.
pub open spec fn purpose(last: u8) -> Seq<u8> {
    seq![0x2bu8, 6, 1, 5, 5, 7, 3, last]
}

/// The policies of the internal link, by their last number.
pub open spec fn internal_policy(last: u8) -> Seq<u8> {
    seq![0x2bu8, 6, 1, 4, 1, 0, 1, last]
}

proof fn usage_bits(bits: u16)
    ensures
        bits & 1 == 0 <==> bits % 2 == 0,
        bits & 0xfffc == 0 <==> bits <= 3,
{
    assert(bits & 1 == 0 <==> bits % 2 == 0) by (bit_vector);
    assert(bits & 0xfffc == 0 <==> bits <= 3) by (bit_vector);
}

proof fn single_faults(subject: Seq<char>, c: CertificateView, complaint: Seq<char>)
    ensures
        algorithm_fault(subject, c) is None <==> signed_well(c),
        authority_fault(subject, c, complaint) is None <==> no_authority(c),
        usage_fault(subject, c, UsageRule::Signing) is None <==> signs(c),
        usage_fault(subject, c, UsageRule::SigningOnly) is None <==> signs_only(c),
{
    crate::identifiers::basic_constraints_is_known();
    crate::identifiers::key_usage_is_known();
    if let Some(e) = extension(c, seq![0x55u8, 0x1d, 0x0f]) {
        if let Ok(bits) = key_usage_of(e.value) {
            usage_bits(bits);
        }
    }
}

proof fn life_is_measured(subject: Seq<char>, c: CertificateView, days: int)
    requires
        0 <= days <= 100_000,
    ensures
        lifetime_fault(subject, c, days) is None <==> lives_at_most(c, days),
{
}

/// A certificate passes for that of a time-stamping unit exactly where it is
/// signed with an admitted algorithm, lives at most 39 months of 30 days, is no
/// authority's, has time-stamping as its only purpose, marked critical, and a
/// key usage of signatures alone.
pub proof fn unit_meets_every_rule(subject: Seq<char>, c: CertificateView)
    ensures
        tsu_fault(subject, c) is None <==> signed_well(c) && lives_at_most(c, 1170)
            && no_authority(c) && purpose_is_critical(c) && serves_only(c, purpose(8))
            && signs_only(c),
{
    single_faults(subject, c, ": le certificat TSU porte basicConstraints CA:TRUE"@);
    life_is_measured(subject, c, 1170);
    crate::identifiers::ext_key_usage_is_known();
    crate::identifiers::time_stamping_is_known();
}

/// A certificate passes for that of an OCSP responder exactly where it is signed
/// with an admitted algorithm, lives at most six months of 30 days, is no
/// authority's, has OCSP signing among its purposes, carries
/// id-pkix-ocsp-nocheck, and may sign.
pub proof fn responder_meets_every_rule(subject: Seq<char>, c: CertificateView)
    ensures
        ocsp_responder_fault(subject, c) is None <==> signed_well(c) && lives_at_most(c, 180)
            && no_authority(c) && serves(c, purpose(9)) && extension(
            c,
            seq![0x2bu8, 6, 1, 5, 5, 7, 0x30, 1, 5],
        ) is Some && signs(c),
{
    single_faults(subject, c, ": le certificat du répondeur porte basicConstraints CA:TRUE"@);
    life_is_measured(subject, c, 180);
    crate::identifiers::ext_key_usage_is_known();
    crate::identifiers::ocsp_signing_is_known();
    crate::identifiers::ocsp_no_check_is_known();
}

/// A certificate passes for that of the client of the internal link exactly
/// where it is signed with an admitted algorithm, lives at most six months of 30
/// days, is no authority's, authenticates clients and does nothing else, carries
/// the client's policy, and may sign.
pub proof fn internal_client_meets_every_rule(subject: Seq<char>, c: CertificateView)
    ensures
        internal_fault(
            subject,
            c,
            "1.3.6.1.5.5.7.3.2"@,
            "1.3.6.1.4.1.0.1.1"@,
        ) is None <==> signed_well(c) && lives_at_most(c, 180) && no_authority(c) && serves_only(
            c,
            purpose(2),
        ) && follows_policy(c, internal_policy(1)) && signs(c),
{
    single_faults(subject, c, ": basicConstraints CA:TRUE"@);
    life_is_measured(subject, c, 180);
    crate::identifiers::ext_key_usage_is_known();
    crate::identifiers::eku_client_auth_is_known();
    crate::identifiers::certificate_policies_is_known();
    crate::identifiers::policy_internal_client_is_known();
}

/// A certificate passes for that of the server of the internal link exactly
/// where it is signed with an admitted algorithm, lives at most six months of 30
/// days, is no authority's, authenticates servers and does nothing else, carries
/// the server's policy, may sign, and has its common name among its DNS names.
pub proof fn internal_server_meets_every_rule(subject: Seq<char>, c: CertificateView)
    ensures
        internal_server_fault(subject, c) is None <==> signed_well(c) && lives_at_most(c, 180)
            && no_authority(c) && serves_only(c, purpose(1)) && follows_policy(
            c,
            internal_policy(2),
        ) && signs(c) && dns_names_of(c).contains(common_name_of(c.subject)),
{
    single_faults(subject, c, ": basicConstraints CA:TRUE"@);
    life_is_measured(subject, c, 180);
    crate::identifiers::ext_key_usage_is_known();
    crate::identifiers::eku_server_auth_is_known();
    crate::identifiers::certificate_policies_is_known();
    crate::identifiers::policy_internal_server_is_known();
}

/// Both ends of the internal link must be able to sign: a certificate that
/// passes either check carries a `keyUsage` that can be read and has the
/// `digitalSignature` bit.
pub proof fn internal_ends_sign(subject: Seq<char>, c: CertificateView, k: int)
    requires
        internal_fault(subject, c, "1.3.6.1.5.5.7.3.2"@, "1.3.6.1.4.1.0.1.1"@) is None
            || internal_server_fault(subject, c) is None,
    ensures
        !absent(c.extensions, seq![0x55u8, 0x1d, 0x0f]),
        first_at(c.extensions, seq![0x55u8, 0x1d, 0x0f], k) ==> (key_usage_of(
            c.extensions[k].value,
        ) matches Ok(bits) && bits % 2 == 1),
{
    internal_client_meets_every_rule(subject, c);
    internal_server_meets_every_rule(subject, c);
    first_extension_counts(c.extensions, seq![0x55u8, 0x1d, 0x0f], k);
}

/// A policy is carried exactly where the extension lists it.
pub proof fn policy_is_listed(c: CertificateView, dotted: Seq<char>, policy: Seq<u8>)
    requires
        crate::crypto::oid_content(dotted) == Some(policy),
    ensures
        carries_policy(c, dotted) <==> follows_policy(c, policy),
{
    crate::identifiers::certificate_policies_is_known();
}

/// The DNS names of a certificate are the names of that kind in its
/// `subjectAltName`, and none where there is no such extension or it cannot be
/// read.
pub proof fn dns_names_are_those_of_the_extension(c: CertificateView, name: Seq<char>)
    ensures
        dns_names_of(c).contains(name) <==> (extension(c, seq![0x55u8, 0x1d, 0x11]) matches Some(e)
            && (alternative_names_of(e.value) matches Some(names) && names.contains(Some(name)))),
{
    crate::identifiers::subject_alt_name_is_known();
    if let Some(e) = extension(c, seq![0x55u8, 0x1d, 0x11]) {
        if let Some(names) = alternative_names_of(e.value) {
            present_is_there(names, name);
        }
    }
}

proof fn present_is_there(names: Seq<Option<Seq<char>>>, name: Seq<char>)
    ensures
        present(names).contains(name) <==> names.contains(Some(name)),
    decreases names.len(),
{
    if names.len() > 0 {
        let rest = names.drop_last();
        present_is_there(rest, name);
        assert(names =~= rest.push(names.last()));
        if names.contains(Some(name)) {
            let k = choose|k: int| 0 <= k < names.len() && names[k] == Some(name);
            if k < rest.len() {
                assert(rest[k] == Some(name));
                let m = choose|m: int|
                    0 <= m < present(rest).len() && present(rest)[m] == name;
                assert(present(names)[m] == name);
            } else {
                assert(present(names).last() == name);
            }
        }
        if present(names).contains(name) {
            let m = choose|m: int| 0 <= m < present(names).len() && present(names)[m] == name;
            if m < present(rest).len() {
                assert(present(rest)[m] == name);
                let k = choose|k: int| 0 <= k < rest.len() && rest[k] == Some(name);
                assert(names[k] == Some(name));
            } else {
                assert(names[names.len() - 1] == Some(name));
            }
        }
    }
}

/// What is said of an algorithm that is not admitted, and of a certificate that
/// lives too long: the subject, what was found, and what is allowed.
pub proof fn algorithm_and_life_are_told(subject: Seq<char>, c: CertificateView, days: int)
    requires
        0 <= days <= 100_000,
    ensures
        !signed_well(c) ==> algorithm_fault(subject, c) == Some(
            subject + ": algorithme de signature "@ + c.signature_algorithm
                + " refusé (SHA-1 et MD5 sont proscrits par ETSI TS 119 312)"@,
        ),
        !lives_at_most(c, days) ==> lifetime_fault(subject, c, days) == Some(
            subject + ": durée de vie de "@ + crate::text::signed_decimal(
                (dated(c.not_after) - dated(c.not_before)) / 86_400,
            ) + " jours, plafond "@ + crate::text::signed_decimal(days) + " jours"@,
        ),
{
    life_is_measured(subject, c, days);
    let life = dated(c.not_after) - dated(c.not_before);
    if life > days * 86_400 {
        assert((life * 1_000_000_000) / 86_400_000_000_000 == life / 86_400);
        assert(days * 86_400_000_000_000 / 86_400_000_000_000 == days);
    }
}

/// What is said of an extension that is missing, cannot be read, or breaks its
/// rule: the subject and the extension, and what was found.
pub proof fn extensions_are_told(
    subject: Seq<char>,
    c: CertificateView,
    rule: PurposeRule,
    dotted: Seq<char>,
    complaint: Seq<char>,
)
    ensures
        ({
            let constraints = extension(c, seq![0x55u8, 0x1d, 0x13]);
            let usage = extension(c, seq![0x55u8, 0x1d, 0x0f]);
            let purposes = extension(c, seq![0x55u8, 0x1d, 0x25]);
            let authority = authority_fault(subject, c, complaint);
            let only = usage_fault(subject, c, UsageRule::SigningOnly);
            let some = usage_fault(subject, c, UsageRule::Signing);
            let for_what = purpose_fault(subject, c, rule, dotted, complaint);
            &&& constraints is None ==> authority == Some(
                subject + ": extension basicConstraints absente"@,
            )
            &&& constraints matches Some(e) ==> {
                &&& authority_flag_of(e.value) matches Err(text) ==> authority == Some(
                    subject + ": basicConstraints illisible: "@ + text,
                )
                &&& authority_flag_of(e.value) == Ok::<bool, Seq<char>>(true) ==> authority
                    == Some(subject + complaint)
            }
            &&& usage is None ==> only == Some(subject + ": extension keyUsage absente"@) && some
                == only
            &&& usage matches Some(e) ==> {
                &&& key_usage_of(e.value) matches Err(text) ==> only == Some(
                    subject + ": keyUsage illisible: "@ + text,
                ) && some == only
                &&& key_usage_of(e.value) matches Ok(bits) ==> {
                    &&& bits == 0 ==> only == Some(subject + ": keyUsage vide"@)
                    &&& bits > 3 ==> only == Some(
                        subject + ": keyUsage déborde de digitalSignature/nonRepudiation"@,
                    )
                    &&& bits % 2 == 0 ==> some == Some(
                        subject + ": keyUsage ne porte pas digitalSignature"@,
                    )
                }
            }
            &&& purposes is None ==> for_what == Some(
                subject + ": extension extendedKeyUsage absente"@,
            )
            &&& purposes matches Some(e) ==> {
                &&& rule.critical && !e.critical ==> for_what == Some(
                    subject + ": extension extendedKeyUsage non marquée critique"@,
                )
                &&& !(rule.critical && !e.critical) ==> (purposes_of(e.value) matches Err(text)
                    ==> for_what == Some(subject + ": extendedKeyUsage illisible: "@ + text))
                &&& for_what is None ==> purposes_of(e.value) is Ok
                &&& !(rule.critical && !e.critical) && purposes_of(e.value) is Ok && for_what
                    is Some ==> for_what == Some(subject + complaint)
            }
        }),
{
    crate::identifiers::basic_constraints_is_known();
    crate::identifiers::key_usage_is_known();
    crate::identifiers::ext_key_usage_is_known();
    if let Some(e) = extension(c, seq![0x55u8, 0x1d, 0x0f]) {
        if let Ok(bits) = key_usage_of(e.value) {
            usage_bits(bits);
        }
    }
}

/// What is said of the other rules: the policy, the exemption of responders and
/// the names of a server.
pub proof fn other_rules_are_told(
    subject: Seq<char>,
    c: CertificateView,
    dotted: Seq<char>,
    names: Seq<Seq<char>>,
    cn: Seq<char>,
)
    ensures
        !carries_policy(c, dotted) ==> policy_fault(subject, c, dotted) == Some(
            subject + ": politique "@ + dotted + " absente"@,
        ),
        carries_policy(c, dotted) ==> policy_fault(subject, c, dotted) is None,
        extension(c, seq![0x2bu8, 6, 1, 5, 5, 7, 0x30, 1, 5]) is None ==> no_check_fault(subject, c)
            == Some(subject + ": extension id-pkix-ocsp-nocheck absente"@),
        names.len() == 0 ==> server_name_fault(subject, names, cn) == Some(
            subject + ": subjectAltName dNSName absent"@,
        ),
        names.len() > 0 && !names.contains(cn) ==> server_name_fault(subject, names, cn) == Some(
            subject + ": CN différent du subjectAltName dNSName"@,
        ),
        names.contains(cn) ==> server_name_fault(subject, names, cn) is None,
{
    crate::identifiers::ocsp_no_check_is_known();
}

/// The first rule that a certificate breaks is the one that is told: its
/// algorithm, its life, that it is an authority's, its purposes, and then what is
/// left.
pub proof fn first_broken_rule_is_told(subject: Seq<char>, c: CertificateView)
    ensures
        !signed_well(c) ==> {
            let fault = algorithm_fault(subject, c);
            &&& tsu_fault(subject, c) == fault
            &&& ocsp_responder_fault(subject, c) == fault
            &&& internal_server_fault(subject, c) == fault
            &&& internal_fault(subject, c, "1.3.6.1.5.5.7.3.2"@, "1.3.6.1.4.1.0.1.1"@) == fault
        },
        signed_well(c) && !lives_at_most(c, 1170) ==> tsu_fault(subject, c) == lifetime_fault(
            subject,
            c,
            1170,
        ),
        signed_well(c) && !lives_at_most(c, 180) ==> {
            let fault = lifetime_fault(subject, c, 180);
            &&& ocsp_responder_fault(subject, c) == fault
            &&& internal_server_fault(subject, c) == fault
            &&& internal_fault(subject, c, "1.3.6.1.5.5.7.3.2"@, "1.3.6.1.4.1.0.1.1"@) == fault
        },
        signed_well(c) && lives_at_most(c, 1170) && !no_authority(c) ==> tsu_fault(subject, c)
            == authority_fault(
            subject,
            c,
            ": le certificat TSU porte basicConstraints CA:TRUE"@,
        ),
        signed_well(c) && lives_at_most(c, 180) && !no_authority(c) ==> {
            let plain = authority_fault(subject, c, ": basicConstraints CA:TRUE"@);
            &&& ocsp_responder_fault(subject, c) == authority_fault(
                subject,
                c,
                ": le certificat du répondeur porte basicConstraints CA:TRUE"@,
            )
            &&& internal_server_fault(subject, c) == plain
            &&& internal_fault(subject, c, "1.3.6.1.5.5.7.3.2"@, "1.3.6.1.4.1.0.1.1"@) == plain
        },
{
    single_faults(subject, c, ": le certificat TSU porte basicConstraints CA:TRUE"@);
    single_faults(subject, c, ": le certificat du répondeur porte basicConstraints CA:TRUE"@);
    single_faults(subject, c, ": basicConstraints CA:TRUE"@);
    life_is_measured(subject, c, 1170);
    life_is_measured(subject, c, 180);
}

/// What the purposes and the usages of a certificate are told to be, once it is
/// signed well, lives no longer than it may and is no authority's.
pub proof fn purposes_then_usages_are_told(subject: Seq<char>, c: CertificateView)
    requires
        signed_well(c),
        no_authority(c),
        lives_at_most(c, 180),
    ensures
        ({
            let unit = purpose_fault(
                subject,
                c,
                PurposeRule { critical: true, only: true },
                "1.3.6.1.5.5.7.3.8"@,
                ": extendedKeyUsage doit contenir uniquement id-kp-timeStamping"@,
            );
            let responder = purpose_fault(
                subject,
                c,
                PurposeRule { critical: false, only: false },
                "1.3.6.1.5.5.7.3.9"@,
                ": extendedKeyUsage id-kp-OCSPSigning absent"@,
            );
            let client = purpose_fault(
                subject,
                c,
                PurposeRule { critical: false, only: true },
                "1.3.6.1.5.5.7.3.2"@,
                ": extendedKeyUsage doit contenir uniquement "@ + "1.3.6.1.5.5.7.3.2"@,
            );
            let server = purpose_fault(
                subject,
                c,
                PurposeRule { critical: false, only: true },
                "1.3.6.1.5.5.7.3.1"@,
                ": extendedKeyUsage doit contenir uniquement "@ + "1.3.6.1.5.5.7.3.1"@,
            );
            let usage = usage_fault(subject, c, UsageRule::Signing);
            &&& unit is Some ==> tsu_fault(subject, c) == unit
            &&& unit is None ==> tsu_fault(subject, c) == usage_fault(
                subject,
                c,
                UsageRule::SigningOnly,
            )
            &&& responder is Some ==> ocsp_responder_fault(subject, c) == responder
            &&& responder is None && no_check_fault(subject, c) is Some ==> ocsp_responder_fault(
                subject,
                c,
            ) == no_check_fault(subject, c)
            &&& responder is None && no_check_fault(subject, c) is None ==> ocsp_responder_fault(
                subject,
                c,
            ) == usage
            &&& client is Some ==> internal_fault(
                subject,
                c,
                "1.3.6.1.5.5.7.3.2"@,
                "1.3.6.1.4.1.0.1.1"@,
            ) == client
            &&& client is None && policy_fault(subject, c, "1.3.6.1.4.1.0.1.1"@) is None
                ==> internal_fault(subject, c, "1.3.6.1.5.5.7.3.2"@, "1.3.6.1.4.1.0.1.1"@)
                == usage
            &&& server is Some ==> internal_server_fault(subject, c) == server
            &&& server is None && policy_fault(subject, c, "1.3.6.1.4.1.0.1.2"@) is Some
                ==> internal_server_fault(subject, c) == policy_fault(
                subject,
                c,
                "1.3.6.1.4.1.0.1.2"@,
            )
            &&& server is None && policy_fault(subject, c, "1.3.6.1.4.1.0.1.2"@) is None && usage
                is Some ==> internal_server_fault(subject, c) == usage
            &&& server is None && policy_fault(subject, c, "1.3.6.1.4.1.0.1.2"@) is None && usage
                is None ==> internal_server_fault(subject, c) == server_name_fault(
                subject,
                dns_names_of(c),
                common_name_of(c.subject),
            )
        }),
{
    single_faults(subject, c, ": le certificat TSU porte basicConstraints CA:TRUE"@);
    single_faults(subject, c, ": le certificat du répondeur porte basicConstraints CA:TRUE"@);
    single_faults(subject, c, ": basicConstraints CA:TRUE"@);
    life_is_measured(subject, c, 1170);
    life_is_measured(subject, c, 180);
}

/// Three algorithms are admitted, and no other.
pub proof fn three_algorithms_are_admitted(oid: Seq<char>)
    ensures
        admitted_signature_algorithm(oid) <==> oid == "1.2.840.113549.1.1.11"@ || oid
            == "1.2.840.113549.1.1.12"@ || oid == "1.2.840.113549.1.1.13"@,
{
}

/// The names that are there are kept in their order, and the others left out.
pub proof fn names_keep_their_order(names: Seq<Option<Seq<char>>>, name: Seq<char>)
    ensures
        present(names.push(Some(name))) == present(names).push(name),
        present(names.push(None)) == present(names),
        present(seq![]).len() == 0,
{
    assert(names.push(Some(name)).drop_last() =~= names);
    assert(names.push(None).drop_last() =~= names);
}

/// A check fails exactly where there is a fault, and says that fault.
pub proof fn fault_is_the_error(r: Result<(), String>, fault: Option<Seq<char>>)
    requires
        crate::profile::fails_with(r, fault),
    ensures
        fault is None <==> r is Ok,
        fault matches Some(text) ==> (r matches Err(said) && said@ == text),
{
}

} // verus!
