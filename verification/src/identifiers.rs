//! Object identifiers in dotted notation, and those that are used here.
use vstd::prelude::*;

use crate::crypto::{arc_length, arcs_content, arcs_of, base128, oid_content};
use crate::extensions::{OID_AD_CA_ISSUERS, OID_AD_OCSP, OID_AUTHORITY_INFO_ACCESS, OID_AUTHORITY_KEY_ID, OID_CRL_DISTRIBUTION_POINTS, OID_CRL_NUMBER, OID_SUBJECT_KEY_ID};
use crate::ocsp::OID_CRL_REASONS;
use crate::profile::{OID_BASIC_CONSTRAINTS, OID_CERTIFICATE_POLICIES, OID_CRL_ISSUED_SERIALS, OID_EKU_CLIENT_AUTH, OID_EKU_SERVER_AUTH, OID_EXT_KEY_USAGE, OID_KEY_USAGE, OID_OCSP_NO_CHECK, OID_OCSP_SIGNING, OID_POLICY_INTERNAL_CLIENT, OID_POLICY_INTERNAL_SERVER, OID_SUBJECT_ALT_NAME, OID_TIME_STAMPING};
use crate::raflow::OID_COMMON_NAME;
use crate::text::{decimal, digits_value};

verus! {

/// Numbers in decimal notation, with points between them.
pub open spec fn dotted(arcs: Seq<nat>) -> Seq<char>
    decreases arcs.len(),
{
    if arcs.len() == 0 {
        seq![]
    } else if arcs.len() == 1 {
        decimal(arcs[0])
    } else {
        decimal(arcs[0]) + seq!['.'] + dotted(arcs.drop_first())
    }
}

proof fn decimal_is_read_back(n: nat)
    ensures
        decimal(n).len() > 0,
        digits_value(decimal(n)) == Some(n),
        forall|i: int| 0 <= i < decimal(n).len() ==> decimal(n)[i] != '.',
    decreases n,
{
    if n >= 10 {
        decimal_is_read_back(n / 10);
        assert(decimal(n).drop_last() =~= decimal(n / 10));
    }
}

proof fn arc_ends(s: Seq<char>, n: int)
    requires
        0 <= n <= s.len(),
        n < s.len() ==> s[n] == '.',
        forall|i: int| 0 <= i < n ==> s[i] != '.',
    ensures
        arc_length(s) == n,
    decreases n,
{
    if n > 0 {
        arc_ends(s.drop_first(), n - 1);
    }
}

/// Numbers in dotted notation are read back as they were.
pub proof fn dotted_is_read_back(arcs: Seq<nat>)
    requires
        arcs.len() > 0,
        forall|i: int| 0 <= i < arcs.len() ==> #[trigger] arcs[i] <= u32::MAX,
    ensures
        arcs_of(dotted(arcs)) == Some(arcs),
    decreases arcs.len(),
{
    let s = dotted(arcs);
    let first = decimal(arcs[0]);
    decimal_is_read_back(arcs[0]);
    assert(arcs[0] <= u32::MAX);
    if arcs.len() == 1 {
        arc_ends(s, s.len() as int);
        assert(s.take(s.len() as int) =~= s);
        assert(seq![arcs[0]] =~= arcs);
    } else {
        let rest = arcs.drop_first();
        assert forall|i: int| 0 <= i < rest.len() implies #[trigger] rest[i] <= u32::MAX by {
            assert(arcs[i + 1] <= u32::MAX);
        }
        dotted_is_read_back(rest);
        let n = first.len() as int;
        arc_ends(s, n);
        assert(s.take(n) =~= first);
        assert(s.skip(n + 1) =~= dotted(rest));
        assert(seq![arcs[0]] + rest =~= arcs);
    }
}

/// Numbers are read between points: the first up to the first point, then the
/// others; a text without points is one number, of at most thirty-two bits.
pub proof fn numbers_are_read_between_points(first: Seq<char>, rest: Seq<char>)
    requires
        forall|i: int| 0 <= i < first.len() ==> first[i] != '.',
    ensures
        arcs_of(first) == match digits_value(first) {
            Some(n) => if n <= u32::MAX {
                Some(seq![n])
            } else {
                None
            },
            None => None,
        },
        arcs_of(first + seq!['.'] + rest) == match (digits_value(first), arcs_of(rest)) {
            (Some(n), Some(others)) => if n <= u32::MAX {
                Some(seq![n] + others)
            } else {
                None
            },
            _ => None,
        },
{
    let n = first.len() as int;
    arc_ends(first, n);
    assert(first.take(n) =~= first);
    let s = first + seq!['.'] + rest;
    arc_ends(s, n);
    assert(s.take(n) =~= first);
    assert(s.skip(n + 1) =~= rest);
}

/// Numbers below 128, each in a byte.
pub open spec fn small_bytes(arcs: Seq<nat>) -> Seq<u8> {
    Seq::new(arcs.len(), |i: int| arcs[i] as u8)
}

proof fn small_arcs(arcs: Seq<nat>)
    requires
        forall|i: int| 0 <= i < arcs.len() ==> #[trigger] arcs[i] < 128,
    ensures
        arcs_content(arcs) == small_bytes(arcs),
    decreases arcs.len(),
{
    if arcs.len() > 0 {
        let rest = arcs.drop_last();
        assert forall|i: int| 0 <= i < rest.len() implies #[trigger] rest[i] < 128 by {
            assert(arcs[i] < 128);
        }
        small_arcs(rest);
        assert(arcs[arcs.len() - 1] < 128);
        assert(arcs.last() / 128 == 0);
        assert(base128(arcs.last()) =~= seq![arcs.last() as u8]);
        assert(arcs_content(arcs) =~= small_bytes(arcs));
    } else {
        assert(arcs_content(arcs) =~= small_bytes(arcs));
    }
}

/// The content of an identifier whose numbers are all below 128: one byte for
/// the first two, then one for each.
pub proof fn small_identifier(first: nat, second: nat, others: Seq<nat>)
    requires
        first <= 2,
        second <= 39,
        others.len() <= 38,
        forall|i: int| 0 <= i < others.len() ==> #[trigger] others[i] < 128,
    ensures
        oid_content(dotted(seq![first, second] + others)) == Some(
            seq![(40 * first + second) as u8] + small_bytes(others),
        ),
{
    let arcs = seq![first, second] + others;
    assert forall|i: int| 0 <= i < arcs.len() implies #[trigger] arcs[i] <= u32::MAX by {
        if i >= 2 {
            assert(others[i - 2] < 128);
        }
    }
    dotted_is_read_back(arcs);
    small_arcs(others);
    assert(arcs.skip(2) =~= others);
}

/// `2.5.29.19` is an identifier.
#[verifier::rlimit(60)]
pub proof fn basic_constraints_is_known()
    ensures
        oid_content(OID_BASIC_CONSTRAINTS@) == Some(seq![0x55u8, 0x1d, 0x13]),
{
    reveal_strlit("2.5.29.19");
    reveal_with_fuel(decimal, 3);
    reveal_with_fuel(dotted, 5);
    let others = seq![29nat, 19];
    assert(seq![2nat, 5] + others =~= seq![2nat, 5, 29, 19]);
    assert(OID_BASIC_CONSTRAINTS@ =~= dotted(seq![2nat, 5, 29, 19]));
    small_identifier(2, 5, others);
    assert(seq![0x55u8] + small_bytes(others) =~= seq![0x55u8, 0x1d, 0x13]);
}

/// `2.5.29.15` is an identifier.
#[verifier::rlimit(60)]
pub proof fn key_usage_is_known()
    ensures
        oid_content(OID_KEY_USAGE@) == Some(seq![0x55u8, 0x1d, 0x0f]),
{
    reveal_strlit("2.5.29.15");
    reveal_with_fuel(decimal, 3);
    reveal_with_fuel(dotted, 5);
    let others = seq![29nat, 15];
    assert(seq![2nat, 5] + others =~= seq![2nat, 5, 29, 15]);
    assert(OID_KEY_USAGE@ =~= dotted(seq![2nat, 5, 29, 15]));
    small_identifier(2, 5, others);
    assert(seq![0x55u8] + small_bytes(others) =~= seq![0x55u8, 0x1d, 0x0f]);
}

/// `2.5.29.37` is an identifier.
#[verifier::rlimit(60)]
pub proof fn ext_key_usage_is_known()
    ensures
        oid_content(OID_EXT_KEY_USAGE@) == Some(seq![0x55u8, 0x1d, 0x25]),
{
    reveal_strlit("2.5.29.37");
    reveal_with_fuel(decimal, 3);
    reveal_with_fuel(dotted, 5);
    let others = seq![29nat, 37];
    assert(seq![2nat, 5] + others =~= seq![2nat, 5, 29, 37]);
    assert(OID_EXT_KEY_USAGE@ =~= dotted(seq![2nat, 5, 29, 37]));
    small_identifier(2, 5, others);
    assert(seq![0x55u8] + small_bytes(others) =~= seq![0x55u8, 0x1d, 0x25]);
}

/// `2.5.29.32` is an identifier.
#[verifier::rlimit(60)]
pub proof fn certificate_policies_is_known()
    ensures
        oid_content(OID_CERTIFICATE_POLICIES@) == Some(seq![0x55u8, 0x1d, 0x20]),
{
    reveal_strlit("2.5.29.32");
    reveal_with_fuel(decimal, 3);
    reveal_with_fuel(dotted, 5);
    let others = seq![29nat, 32];
    assert(seq![2nat, 5] + others =~= seq![2nat, 5, 29, 32]);
    assert(OID_CERTIFICATE_POLICIES@ =~= dotted(seq![2nat, 5, 29, 32]));
    small_identifier(2, 5, others);
    assert(seq![0x55u8] + small_bytes(others) =~= seq![0x55u8, 0x1d, 0x20]);
}

/// `2.5.29.17` is an identifier.
#[verifier::rlimit(60)]
pub proof fn subject_alt_name_is_known()
    ensures
        oid_content(OID_SUBJECT_ALT_NAME@) == Some(seq![0x55u8, 0x1d, 0x11]),
{
    reveal_strlit("2.5.29.17");
    reveal_with_fuel(decimal, 3);
    reveal_with_fuel(dotted, 5);
    let others = seq![29nat, 17];
    assert(seq![2nat, 5] + others =~= seq![2nat, 5, 29, 17]);
    assert(OID_SUBJECT_ALT_NAME@ =~= dotted(seq![2nat, 5, 29, 17]));
    small_identifier(2, 5, others);
    assert(seq![0x55u8] + small_bytes(others) =~= seq![0x55u8, 0x1d, 0x11]);
}

/// `1.3.6.1.5.5.7.48.1.5` is an identifier.
#[verifier::rlimit(60)]
pub proof fn ocsp_no_check_is_known()
    ensures
        oid_content(OID_OCSP_NO_CHECK@) == Some(seq![0x2bu8, 0x06, 0x01, 0x05, 0x05, 0x07, 0x30, 0x01, 0x05]),
{
    reveal_strlit("1.3.6.1.5.5.7.48.1.5");
    reveal_with_fuel(decimal, 3);
    reveal_with_fuel(dotted, 11);
    let others = seq![6nat, 1, 5, 5, 7, 48, 1, 5];
    assert(seq![1nat, 3] + others =~= seq![1nat, 3, 6, 1, 5, 5, 7, 48, 1, 5]);
    assert(OID_OCSP_NO_CHECK@ =~= dotted(seq![1nat, 3, 6, 1, 5, 5, 7, 48, 1, 5]));
    small_identifier(1, 3, others);
    assert(seq![0x2bu8] + small_bytes(others) =~= seq![0x2bu8, 0x06, 0x01, 0x05, 0x05, 0x07, 0x30, 0x01, 0x05]);
}

/// `1.3.6.1.5.5.7.3.8` is an identifier.
#[verifier::rlimit(60)]
pub proof fn time_stamping_is_known()
    ensures
        oid_content(OID_TIME_STAMPING@) == Some(seq![0x2bu8, 0x06, 0x01, 0x05, 0x05, 0x07, 0x03, 0x08]),
{
    reveal_strlit("1.3.6.1.5.5.7.3.8");
    reveal_with_fuel(decimal, 3);
    reveal_with_fuel(dotted, 10);
    let others = seq![6nat, 1, 5, 5, 7, 3, 8];
    assert(seq![1nat, 3] + others =~= seq![1nat, 3, 6, 1, 5, 5, 7, 3, 8]);
    assert(OID_TIME_STAMPING@ =~= dotted(seq![1nat, 3, 6, 1, 5, 5, 7, 3, 8]));
    small_identifier(1, 3, others);
    assert(seq![0x2bu8] + small_bytes(others) =~= seq![0x2bu8, 0x06, 0x01, 0x05, 0x05, 0x07, 0x03, 0x08]);
}

/// `1.3.6.1.5.5.7.3.9` is an identifier.
#[verifier::rlimit(60)]
pub proof fn ocsp_signing_is_known()
    ensures
        oid_content(OID_OCSP_SIGNING@) == Some(seq![0x2bu8, 0x06, 0x01, 0x05, 0x05, 0x07, 0x03, 0x09]),
{
    reveal_strlit("1.3.6.1.5.5.7.3.9");
    reveal_with_fuel(decimal, 3);
    reveal_with_fuel(dotted, 10);
    let others = seq![6nat, 1, 5, 5, 7, 3, 9];
    assert(seq![1nat, 3] + others =~= seq![1nat, 3, 6, 1, 5, 5, 7, 3, 9]);
    assert(OID_OCSP_SIGNING@ =~= dotted(seq![1nat, 3, 6, 1, 5, 5, 7, 3, 9]));
    small_identifier(1, 3, others);
    assert(seq![0x2bu8] + small_bytes(others) =~= seq![0x2bu8, 0x06, 0x01, 0x05, 0x05, 0x07, 0x03, 0x09]);
}

/// `1.3.6.1.5.5.7.3.1` is an identifier.
#[verifier::rlimit(60)]
pub proof fn eku_server_auth_is_known()
    ensures
        oid_content(OID_EKU_SERVER_AUTH@) == Some(seq![0x2bu8, 0x06, 0x01, 0x05, 0x05, 0x07, 0x03, 0x01]),
{
    reveal_strlit("1.3.6.1.5.5.7.3.1");
    reveal_with_fuel(decimal, 3);
    reveal_with_fuel(dotted, 10);
    let others = seq![6nat, 1, 5, 5, 7, 3, 1];
    assert(seq![1nat, 3] + others =~= seq![1nat, 3, 6, 1, 5, 5, 7, 3, 1]);
    assert(OID_EKU_SERVER_AUTH@ =~= dotted(seq![1nat, 3, 6, 1, 5, 5, 7, 3, 1]));
    small_identifier(1, 3, others);
    assert(seq![0x2bu8] + small_bytes(others) =~= seq![0x2bu8, 0x06, 0x01, 0x05, 0x05, 0x07, 0x03, 0x01]);
}

/// `1.3.6.1.5.5.7.3.2` is an identifier.
#[verifier::rlimit(60)]
pub proof fn eku_client_auth_is_known()
    ensures
        oid_content(OID_EKU_CLIENT_AUTH@) == Some(seq![0x2bu8, 0x06, 0x01, 0x05, 0x05, 0x07, 0x03, 0x02]),
{
    reveal_strlit("1.3.6.1.5.5.7.3.2");
    reveal_with_fuel(decimal, 3);
    reveal_with_fuel(dotted, 10);
    let others = seq![6nat, 1, 5, 5, 7, 3, 2];
    assert(seq![1nat, 3] + others =~= seq![1nat, 3, 6, 1, 5, 5, 7, 3, 2]);
    assert(OID_EKU_CLIENT_AUTH@ =~= dotted(seq![1nat, 3, 6, 1, 5, 5, 7, 3, 2]));
    small_identifier(1, 3, others);
    assert(seq![0x2bu8] + small_bytes(others) =~= seq![0x2bu8, 0x06, 0x01, 0x05, 0x05, 0x07, 0x03, 0x02]);
}

/// `1.3.6.1.4.1.0.1.1` is an identifier.
#[verifier::rlimit(60)]
pub proof fn policy_internal_client_is_known()
    ensures
        oid_content(OID_POLICY_INTERNAL_CLIENT@) == Some(seq![0x2bu8, 0x06, 0x01, 0x04, 0x01, 0x00, 0x01, 0x01]),
{
    reveal_strlit("1.3.6.1.4.1.0.1.1");
    reveal_with_fuel(decimal, 3);
    reveal_with_fuel(dotted, 10);
    let others = seq![6nat, 1, 4, 1, 0, 1, 1];
    assert(seq![1nat, 3] + others =~= seq![1nat, 3, 6, 1, 4, 1, 0, 1, 1]);
    assert(OID_POLICY_INTERNAL_CLIENT@ =~= dotted(seq![1nat, 3, 6, 1, 4, 1, 0, 1, 1]));
    small_identifier(1, 3, others);
    assert(seq![0x2bu8] + small_bytes(others) =~= seq![0x2bu8, 0x06, 0x01, 0x04, 0x01, 0x00, 0x01, 0x01]);
}

/// `1.3.6.1.4.1.0.1.2` is an identifier.
#[verifier::rlimit(60)]
pub proof fn policy_internal_server_is_known()
    ensures
        oid_content(OID_POLICY_INTERNAL_SERVER@) == Some(seq![0x2bu8, 0x06, 0x01, 0x04, 0x01, 0x00, 0x01, 0x02]),
{
    reveal_strlit("1.3.6.1.4.1.0.1.2");
    reveal_with_fuel(decimal, 3);
    reveal_with_fuel(dotted, 10);
    let others = seq![6nat, 1, 4, 1, 0, 1, 2];
    assert(seq![1nat, 3] + others =~= seq![1nat, 3, 6, 1, 4, 1, 0, 1, 2]);
    assert(OID_POLICY_INTERNAL_SERVER@ =~= dotted(seq![1nat, 3, 6, 1, 4, 1, 0, 1, 2]));
    small_identifier(1, 3, others);
    assert(seq![0x2bu8] + small_bytes(others) =~= seq![0x2bu8, 0x06, 0x01, 0x04, 0x01, 0x00, 0x01, 0x02]);
}

/// `1.3.6.1.4.1.0.1.3` is an identifier.
#[verifier::rlimit(60)]
pub proof fn crl_issued_serials_is_known()
    ensures
        oid_content(OID_CRL_ISSUED_SERIALS@) == Some(seq![0x2bu8, 0x06, 0x01, 0x04, 0x01, 0x00, 0x01, 0x03]),
{
    reveal_strlit("1.3.6.1.4.1.0.1.3");
    reveal_with_fuel(decimal, 3);
    reveal_with_fuel(dotted, 10);
    let others = seq![6nat, 1, 4, 1, 0, 1, 3];
    assert(seq![1nat, 3] + others =~= seq![1nat, 3, 6, 1, 4, 1, 0, 1, 3]);
    assert(OID_CRL_ISSUED_SERIALS@ =~= dotted(seq![1nat, 3, 6, 1, 4, 1, 0, 1, 3]));
    small_identifier(1, 3, others);
    assert(seq![0x2bu8] + small_bytes(others) =~= seq![0x2bu8, 0x06, 0x01, 0x04, 0x01, 0x00, 0x01, 0x03]);
}

/// `2.5.29.14` is an identifier.
#[verifier::rlimit(60)]
pub proof fn subject_key_id_is_known()
    ensures
        oid_content(OID_SUBJECT_KEY_ID@) == Some(seq![0x55u8, 0x1d, 0x0e]),
{
    reveal_strlit("2.5.29.14");
    reveal_with_fuel(decimal, 3);
    reveal_with_fuel(dotted, 5);
    let others = seq![29nat, 14];
    assert(seq![2nat, 5] + others =~= seq![2nat, 5, 29, 14]);
    assert(OID_SUBJECT_KEY_ID@ =~= dotted(seq![2nat, 5, 29, 14]));
    small_identifier(2, 5, others);
    assert(seq![0x55u8] + small_bytes(others) =~= seq![0x55u8, 0x1d, 0x0e]);
}

/// `2.5.29.35` is an identifier.
#[verifier::rlimit(60)]
pub proof fn authority_key_id_is_known()
    ensures
        oid_content(OID_AUTHORITY_KEY_ID@) == Some(seq![0x55u8, 0x1d, 0x23]),
{
    reveal_strlit("2.5.29.35");
    reveal_with_fuel(decimal, 3);
    reveal_with_fuel(dotted, 5);
    let others = seq![29nat, 35];
    assert(seq![2nat, 5] + others =~= seq![2nat, 5, 29, 35]);
    assert(OID_AUTHORITY_KEY_ID@ =~= dotted(seq![2nat, 5, 29, 35]));
    small_identifier(2, 5, others);
    assert(seq![0x55u8] + small_bytes(others) =~= seq![0x55u8, 0x1d, 0x23]);
}

/// `2.5.29.31` is an identifier.
#[verifier::rlimit(60)]
pub proof fn crl_distribution_points_is_known()
    ensures
        oid_content(OID_CRL_DISTRIBUTION_POINTS@) == Some(seq![0x55u8, 0x1d, 0x1f]),
{
    reveal_strlit("2.5.29.31");
    reveal_with_fuel(decimal, 3);
    reveal_with_fuel(dotted, 5);
    let others = seq![29nat, 31];
    assert(seq![2nat, 5] + others =~= seq![2nat, 5, 29, 31]);
    assert(OID_CRL_DISTRIBUTION_POINTS@ =~= dotted(seq![2nat, 5, 29, 31]));
    small_identifier(2, 5, others);
    assert(seq![0x55u8] + small_bytes(others) =~= seq![0x55u8, 0x1d, 0x1f]);
}

/// `1.3.6.1.5.5.7.1.1` is an identifier.
#[verifier::rlimit(60)]
pub proof fn authority_info_access_is_known()
    ensures
        oid_content(OID_AUTHORITY_INFO_ACCESS@) == Some(seq![0x2bu8, 0x06, 0x01, 0x05, 0x05, 0x07, 0x01, 0x01]),
{
    reveal_strlit("1.3.6.1.5.5.7.1.1");
    reveal_with_fuel(decimal, 3);
    reveal_with_fuel(dotted, 10);
    let others = seq![6nat, 1, 5, 5, 7, 1, 1];
    assert(seq![1nat, 3] + others =~= seq![1nat, 3, 6, 1, 5, 5, 7, 1, 1]);
    assert(OID_AUTHORITY_INFO_ACCESS@ =~= dotted(seq![1nat, 3, 6, 1, 5, 5, 7, 1, 1]));
    small_identifier(1, 3, others);
    assert(seq![0x2bu8] + small_bytes(others) =~= seq![0x2bu8, 0x06, 0x01, 0x05, 0x05, 0x07, 0x01, 0x01]);
}

/// `1.3.6.1.5.5.7.48.2` is an identifier.
#[verifier::rlimit(60)]
pub proof fn ad_ca_issuers_is_known()
    ensures
        oid_content(OID_AD_CA_ISSUERS@) == Some(seq![0x2bu8, 0x06, 0x01, 0x05, 0x05, 0x07, 0x30, 0x02]),
{
    reveal_strlit("1.3.6.1.5.5.7.48.2");
    reveal_with_fuel(decimal, 3);
    reveal_with_fuel(dotted, 10);
    let others = seq![6nat, 1, 5, 5, 7, 48, 2];
    assert(seq![1nat, 3] + others =~= seq![1nat, 3, 6, 1, 5, 5, 7, 48, 2]);
    assert(OID_AD_CA_ISSUERS@ =~= dotted(seq![1nat, 3, 6, 1, 5, 5, 7, 48, 2]));
    small_identifier(1, 3, others);
    assert(seq![0x2bu8] + small_bytes(others) =~= seq![0x2bu8, 0x06, 0x01, 0x05, 0x05, 0x07, 0x30, 0x02]);
}

/// `1.3.6.1.5.5.7.48.1` is an identifier.
#[verifier::rlimit(60)]
pub proof fn ad_ocsp_is_known()
    ensures
        oid_content(OID_AD_OCSP@) == Some(seq![0x2bu8, 0x06, 0x01, 0x05, 0x05, 0x07, 0x30, 0x01]),
{
    reveal_strlit("1.3.6.1.5.5.7.48.1");
    reveal_with_fuel(decimal, 3);
    reveal_with_fuel(dotted, 10);
    let others = seq![6nat, 1, 5, 5, 7, 48, 1];
    assert(seq![1nat, 3] + others =~= seq![1nat, 3, 6, 1, 5, 5, 7, 48, 1]);
    assert(OID_AD_OCSP@ =~= dotted(seq![1nat, 3, 6, 1, 5, 5, 7, 48, 1]));
    small_identifier(1, 3, others);
    assert(seq![0x2bu8] + small_bytes(others) =~= seq![0x2bu8, 0x06, 0x01, 0x05, 0x05, 0x07, 0x30, 0x01]);
}

/// `2.5.29.20` is an identifier.
#[verifier::rlimit(60)]
pub proof fn crl_number_is_known()
    ensures
        oid_content(OID_CRL_NUMBER@) == Some(seq![0x55u8, 0x1d, 0x14]),
{
    reveal_strlit("2.5.29.20");
    reveal_with_fuel(decimal, 3);
    reveal_with_fuel(dotted, 5);
    let others = seq![29nat, 20];
    assert(seq![2nat, 5] + others =~= seq![2nat, 5, 29, 20]);
    assert(OID_CRL_NUMBER@ =~= dotted(seq![2nat, 5, 29, 20]));
    small_identifier(2, 5, others);
    assert(seq![0x55u8] + small_bytes(others) =~= seq![0x55u8, 0x1d, 0x14]);
}

/// `2.5.4.3` is an identifier.
#[verifier::rlimit(60)]
pub proof fn common_name_is_known()
    ensures
        oid_content(OID_COMMON_NAME@) == Some(seq![0x55u8, 0x04, 0x03]),
{
    reveal_strlit("2.5.4.3");
    reveal_with_fuel(decimal, 3);
    reveal_with_fuel(dotted, 5);
    let others = seq![4nat, 3];
    assert(seq![2nat, 5] + others =~= seq![2nat, 5, 4, 3]);
    assert(OID_COMMON_NAME@ =~= dotted(seq![2nat, 5, 4, 3]));
    small_identifier(2, 5, others);
    assert(seq![0x55u8] + small_bytes(others) =~= seq![0x55u8, 0x04, 0x03]);
}

/// `2.5.29.21` is an identifier.
#[verifier::rlimit(60)]
pub proof fn crl_reasons_is_known()
    ensures
        oid_content(OID_CRL_REASONS@) == Some(seq![0x55u8, 0x1d, 0x15]),
{
    reveal_strlit("2.5.29.21");
    reveal_with_fuel(decimal, 3);
    reveal_with_fuel(dotted, 5);
    let others = seq![29nat, 21];
    assert(seq![2nat, 5] + others =~= seq![2nat, 5, 29, 21]);
    assert(OID_CRL_REASONS@ =~= dotted(seq![2nat, 5, 29, 21]));
    small_identifier(2, 5, others);
    assert(seq![0x55u8] + small_bytes(others) =~= seq![0x55u8, 0x1d, 0x15]);
}

} // verus!
