//! Extensions as they are built, and certificates as they are checked.
use open_eidas::extensions::{
    authority_info_access, authority_key_identifier, basic_constraints, certificate_policy,
    crl_distribution_point, crl_issued_serials, crl_number, extended_key_usage, key_usage,
    ocsp_no_check, subject_alt_name_dns, subject_key_identifier, CaError,
};
use open_eidas::profile::{
    check_internal_client_certificate, check_internal_server_certificate,
    check_ocsp_responder_certificate, check_tsu_certificate, dns_names, find_extension,
    has_certificate_policy, judge_flag, judge_purposes, judge_server_names, judge_usages,
    present_names, PurposeRule, UsageRule, INTERNAL_CLIENT_CN, OID_EKU_CLIENT_AUTH, OID_EKU_SERVER_AUTH, OID_OCSP_SIGNING,
    OID_POLICY_INTERNAL_CLIENT, OID_POLICY_INTERNAL_SERVER, OID_TIME_STAMPING,
};
use open_eidas::x509::{Certificate, Extension};

const DAY: u64 = 86_400;

const SHA256_WITH_RSA: &str = "1.2.840.113549.1.1.11";

const DIGITAL_SIGNATURE: u16 = 1;

const NON_REPUDIATION: u16 = 2;

const KEY_CERT_SIGN: u16 = 32;

fn certificate(days: u64, extensions: Vec<Extension>) -> Certificate {
    Certificate {
        signature_algorithm: SHA256_WITH_RSA.to_string(),
        not_before: 1_790_000_000,
        not_after: 1_790_000_000 + days * DAY,
        extensions,
        subject: vec![0x30, 0],
        public_key_info: vec![],
        encoding: vec![],
    }
}

fn purposes(list: &[&str], critical: bool) -> Extension {
    let list = list.iter().map(|p| p.to_string()).collect();
    extended_key_usage(&list, critical).unwrap()
}

fn tsu() -> Vec<Extension> {
    vec![
        basic_constraints(false, None).unwrap(),
        purposes(&[OID_TIME_STAMPING], true),
        key_usage(DIGITAL_SIGNATURE | NON_REPUDIATION).unwrap(),
    ]
}

fn ocsp() -> Vec<Extension> {
    vec![
        basic_constraints(false, None).unwrap(),
        purposes(&[OID_OCSP_SIGNING], false),
        ocsp_no_check(),
        key_usage(DIGITAL_SIGNATURE).unwrap(),
    ]
}

fn internal(purpose: &str, policy: &str) -> Vec<Extension> {
    vec![
        basic_constraints(false, None).unwrap(),
        purposes(&[purpose], false),
        certificate_policy(policy).unwrap(),
        key_usage(DIGITAL_SIGNATURE).unwrap(),
    ]
}

fn client() -> Certificate {
    certificate(30, internal(OID_EKU_CLIENT_AUTH, OID_POLICY_INTERNAL_CLIENT))
}

fn server() -> Certificate {
    let mut extensions = internal(OID_EKU_SERVER_AUTH, OID_POLICY_INTERNAL_SERVER);
    extensions.push(subject_alt_name_dns("ca.internal.svc").unwrap());
    let mut c = certificate(30, extensions);
    c.subject = named("ca.internal.svc");
    c
}

/// The encoding of a name with a common name alone.
fn named(cn: &str) -> Vec<u8> {
    let n = cn.len() as u8;
    let mut out = vec![0x30, n + 11, 0x31, n + 9, 0x30, n + 7, 6, 3, 0x55, 4, 3, 0x0c, n];
    out.extend(cn.as_bytes());
    out
}

fn without(mut extensions: Vec<Extension>, i: usize) -> Vec<Extension> {
    extensions.remove(i);
    extensions
}

fn with(mut extensions: Vec<Extension>, i: usize, e: Extension) -> Vec<Extension> {
    extensions[i] = e;
    extensions
}

fn tsu_error(days: u64, extensions: Vec<Extension>) -> String {
    check_tsu_certificate("u", &certificate(days, extensions)).unwrap_err()
}

fn ocsp_error(days: u64, extensions: Vec<Extension>) -> String {
    check_ocsp_responder_certificate("r", &certificate(days, extensions)).unwrap_err()
}

#[test]
fn internal_client_only_accepts_its_fixed_common_name() {
    assert_eq!(INTERNAL_CLIENT_CN, "ra-console");
    let cert = client();
    check_internal_client_certificate("client", &cert).unwrap();
    assert!(has_certificate_policy(&cert, OID_POLICY_INTERNAL_CLIENT));
    assert!(!has_certificate_policy(&cert, OID_POLICY_INTERNAL_SERVER));
    assert!(dns_names(&cert).is_empty());
}

#[test]
fn internal_server_takes_its_san_from_a_dns_common_name() {
    let cert = server();
    check_internal_server_certificate("serveur", &cert).unwrap();
    assert_eq!(dns_names(&cert), vec!["ca.internal.svc"]);
    let mut misnamed = server();
    misnamed.subject = named("autre.internal.svc");
    assert_eq!(
        check_internal_server_certificate("serveur", &misnamed).unwrap_err(),
        "serveur: CN différent du subjectAltName dNSName"
    );
}

#[test]
fn the_internal_checks_tell_the_profiles_apart() {
    let client = client();
    let server = server();
    let tsu = certificate(30, tsu());
    assert!(check_internal_client_certificate("x", &server).is_err());
    assert!(check_internal_server_certificate("x", &client).is_err());
    assert!(check_internal_client_certificate("x", &tsu).is_err());
    assert!(check_internal_server_certificate("x", &tsu).is_err());
}

#[test]
fn a_time_stamping_unit_is_checked() {
    assert!(check_tsu_certificate("u", &certificate(1170, tsu())).is_ok());
    let mut c = certificate(30, tsu());
    c.signature_algorithm = "1.2.840.113549.1.1.5".to_string();
    assert!(check_tsu_certificate("u", &c).unwrap_err().starts_with("u: algorithme de signature"));
    assert_eq!(tsu_error(1171, tsu()), "u: durée de vie de 1171 jours, plafond 1170 jours");
    assert_eq!(tsu_error(1, without(tsu(), 0)), "u: extension basicConstraints absente");
    assert_eq!(
        tsu_error(1, with(tsu(), 0, basic_constraints(true, Some(0)).unwrap())),
        "u: le certificat TSU porte basicConstraints CA:TRUE"
    );
    assert_eq!(tsu_error(1, without(tsu(), 1)), "u: extension extendedKeyUsage absente");
    assert_eq!(
        tsu_error(1, with(tsu(), 1, purposes(&[OID_TIME_STAMPING], false))),
        "u: extension extendedKeyUsage non marquée critique"
    );
    assert_eq!(
        tsu_error(1, with(tsu(), 1, purposes(&[OID_TIME_STAMPING, OID_OCSP_SIGNING], true))),
        "u: extendedKeyUsage doit contenir uniquement id-kp-timeStamping"
    );
    assert_eq!(tsu_error(1, without(tsu(), 2)), "u: extension keyUsage absente");
    assert_eq!(tsu_error(1, with(tsu(), 2, key_usage(0).unwrap())), "u: keyUsage vide");
    assert_eq!(
        tsu_error(1, with(tsu(), 2, key_usage(DIGITAL_SIGNATURE | KEY_CERT_SIGN).unwrap())),
        "u: keyUsage déborde de digitalSignature/nonRepudiation"
    );
}

#[test]
fn values_that_cannot_be_read_are_reported() {
    let broken = |oid: Vec<u8>, critical: bool| Extension { oid, critical, value: vec![0x05, 0] };
    let bc = broken(vec![0x55, 0x1d, 0x13], true);
    assert!(tsu_error(1, with(tsu(), 0, bc)).starts_with("u: basicConstraints illisible: "));
    let eku = broken(vec![0x55, 0x1d, 0x25], true);
    assert!(tsu_error(1, with(tsu(), 1, eku)).starts_with("u: extendedKeyUsage illisible: "));
    let ku = broken(vec![0x55, 0x1d, 0x0f], true);
    assert!(tsu_error(1, with(tsu(), 2, ku)).starts_with("u: keyUsage illisible: "));
    let policies = broken(vec![0x55, 0x1d, 0x20], false);
    assert!(!has_certificate_policy(&certificate(1, vec![policies]), OID_POLICY_INTERNAL_CLIENT));
    let names = broken(vec![0x55, 0x1d, 0x11], false);
    assert!(dns_names(&certificate(1, vec![names])).is_empty());
    assert!(!has_certificate_policy(&client(), "pas un identifiant"));
}

#[test]
fn a_responder_is_checked() {
    assert!(check_ocsp_responder_certificate("r", &certificate(180, ocsp())).is_ok());
    assert_eq!(ocsp_error(181, ocsp()), "r: durée de vie de 181 jours, plafond 180 jours");
    assert_eq!(
        ocsp_error(1, with(ocsp(), 0, basic_constraints(true, None).unwrap())),
        "r: le certificat du répondeur porte basicConstraints CA:TRUE"
    );
    assert_eq!(
        ocsp_error(1, with(ocsp(), 1, purposes(&[OID_TIME_STAMPING], true))),
        "r: extendedKeyUsage id-kp-OCSPSigning absent"
    );
    // One purpose among others is enough here.
    let several = with(ocsp(), 1, purposes(&[OID_TIME_STAMPING, OID_OCSP_SIGNING], true));
    assert!(check_ocsp_responder_certificate("r", &certificate(1, several)).is_ok());
    assert_eq!(ocsp_error(1, without(ocsp(), 2)), "r: extension id-pkix-ocsp-nocheck absente");
    assert_eq!(
        ocsp_error(1, with(ocsp(), 3, key_usage(NON_REPUDIATION).unwrap())),
        "r: keyUsage ne porte pas digitalSignature"
    );
}

#[test]
fn the_ends_of_the_internal_link_are_checked() {
    let error = |extensions: Vec<Extension>| {
        check_internal_client_certificate("c", &certificate(30, extensions)).unwrap_err()
    };
    let good = || internal(OID_EKU_CLIENT_AUTH, OID_POLICY_INTERNAL_CLIENT);
    assert_eq!(
        error(with(good(), 0, basic_constraints(true, None).unwrap())),
        "c: basicConstraints CA:TRUE"
    );
    assert_eq!(
        error(with(good(), 1, purposes(&[OID_EKU_CLIENT_AUTH, OID_EKU_SERVER_AUTH], false))),
        "c: extendedKeyUsage doit contenir uniquement 1.3.6.1.5.5.7.3.2"
    );
    assert_eq!(error(without(good(), 2)), "c: politique 1.3.6.1.4.1.0.1.1 absente");
    assert!(check_internal_client_certificate("c", &certificate(181, good())).is_err());
    let nameless = internal(OID_EKU_SERVER_AUTH, OID_POLICY_INTERNAL_SERVER);
    assert!(check_internal_server_certificate("s", &certificate(30, nameless)).is_err());
}

#[test]
fn judgements_follow_what_was_read() {
    assert!(judge_flag("s", Some(Ok(false)), ": non").is_ok());
    assert_eq!(judge_flag("s", Some(Ok(true)), ": non").unwrap_err(), "s: non");
    assert_eq!(
        judge_flag("s", None, ": non").unwrap_err(),
        "s: extension basicConstraints absente"
    );
    assert!(judge_usages("s", Some(Ok(1)), UsageRule::Signing).is_ok());
    assert!(judge_usages("s", Some(Ok(2)), UsageRule::Signing).is_err());
    let oid = vec![1u8, 2];
    let rule = |critical: bool, only: bool| PurposeRule { critical, only };
    let read = |list: Vec<Vec<u8>>, critical: bool| Some((critical, Ok::<_, String>(list)));
    let judge = |r: PurposeRule, list: Vec<Vec<u8>>, critical: bool| {
        judge_purposes("s", read(list, critical), r, Some(oid.clone()), ": non")
    };
    assert!(judge(rule(true, true), vec![vec![1, 2]], true).is_ok());
    assert!(judge(rule(true, true), vec![vec![1, 2]], false).is_err());
    assert!(judge(rule(false, true), vec![vec![1, 2], vec![3]], false).is_err());
    assert!(judge(rule(false, false), vec![vec![3], vec![1, 2]], false).is_ok());
    let listed = vec!["a".to_string(), "b".to_string()];
    assert!(judge_server_names("s", &listed, "b").is_ok());
    assert_eq!(
        judge_server_names("s", &listed, "c").unwrap_err(),
        "s: CN différent du subjectAltName dNSName"
    );
    assert_eq!(
        judge_server_names("s", &vec![], "c").unwrap_err(),
        "s: subjectAltName dNSName absent"
    );
    let names = vec![Some("a".to_string()), None, Some("b".to_string())];
    assert_eq!(present_names(&names), vec!["a", "b"]);
}

#[test]
fn extensions_are_found_by_their_identifier() {
    let list = ocsp();
    assert_eq!(find_extension(&list, "2.5.29.37").unwrap().value, list[1].value);
    assert!(find_extension(&list, "2.5.29.99").is_none());
    assert!(find_extension(&list, "").is_none());
}

fn value(e: Result<Extension, CaError>) -> String {
    hex::encode(e.unwrap().value)
}

#[test]
fn extensions_are_built_as_the_standard_has_them() {
    let e = basic_constraints(true, Some(0)).unwrap();
    assert_eq!(hex::encode(&e.oid), "551d13");
    assert!(e.critical);
    assert_eq!(hex::encode(&e.value), "30060101ff020100");
    assert_eq!(value(basic_constraints(false, None)), "3000");
    assert_eq!(value(basic_constraints(true, Some(200))), "30070101ff020200c8");
    let e = key_usage(DIGITAL_SIGNATURE).unwrap();
    assert!(e.critical);
    assert_eq!(hex::encode(&e.value), "03020780");
    assert_eq!(value(key_usage(32 | 64)), "03020106");
    assert_eq!(value(key_usage(256)), "0303070080");
    assert_eq!(value(key_usage(0)), "030100");
    let e = subject_key_identifier(&[1, 2, 3]).unwrap();
    assert_eq!(hex::encode(&e.oid), "551d0e");
    assert!(!e.critical);
    assert_eq!(hex::encode(&e.value), "0403010203");
    assert_eq!(value(authority_key_identifier(&[1, 2, 3])), "30058003010203");
    assert_eq!(hex::encode(purposes(&[OID_OCSP_SIGNING], true).value), "300a06082b06010505070309");
    let e = ocsp_no_check();
    assert_eq!(hex::encode(&e.oid), "2b0601050507300105");
    assert_eq!(e.value, vec![5, 0]);
    assert!(!e.critical);
    assert_eq!(
        value(certificate_policy(OID_POLICY_INTERNAL_CLIENT)),
        "300c300a06082b06010401000101"
    );
    assert_eq!(value(subject_alt_name_dns("a.b")), "30058203612e62");
    assert_eq!(
        value(crl_distribution_point("http://x")),
        "3010300ea00ca00a8608687474703a2f2f78"
    );
    assert_eq!(
        value(authority_info_access(Some("u"), Some("v"))),
        "301e300d06082b06010505073002860175300d06082b06010505073001860176"
    );
    assert_eq!(value(authority_info_access(None, None)), "3000");
}

#[test]
fn numbers_of_lists_are_kept_as_eight_bytes_are() {
    let e = crl_number(1).unwrap();
    assert_eq!(hex::encode(&e.oid), "551d14");
    assert_eq!(hex::encode(&e.value), "02080000000000000001");
    assert_eq!(value(crl_number(-1)), "0201ff");
}

#[test]
fn issued_serials_are_listed_as_unsigned_numbers() {
    let e = crl_issued_serials(&vec![vec![0x80], vec![0, 0, 1]]).unwrap();
    assert_eq!(hex::encode(&e.oid), "2b06010401000103");
    assert_eq!(hex::encode(&e.value), "300702020080020101");
    assert!(crl_issued_serials(&vec![vec![0x80; 20]]).is_err());
    assert!(crl_issued_serials(&vec![vec![0x7f; 20]]).is_ok());
    assert_eq!(value(crl_issued_serials(&vec![])), "3000");
}

#[test]
fn what_cannot_be_encoded_is_refused() {
    assert!(crl_distribution_point("http://é").is_err());
    assert!(subject_alt_name_dns("é").is_err());
    assert!(authority_info_access(Some("é"), None).is_err());
    assert!(certificate_policy("1.2.x").is_err());
    assert!(certificate_policy("3.1").is_err());
    assert!(certificate_policy("1.40").is_err());
    assert!(certificate_policy("1").is_err());
    assert!(certificate_policy("1.2.4294967296").is_err());
    assert_eq!(value(certificate_policy("1.2.840.113549")), "300a300806062a864886f70d");
    assert_eq!(value(certificate_policy("1.2.4294967295")), "300a300806062a8fffffff7f");
    assert!(extended_key_usage(&vec!["1.2".to_string(), "".to_string()], false).is_err());
}

#[test]
fn encodings_that_are_no_certificate_are_refused() {
    assert!(Certificate::from_der(&[0x30, 0]).is_err());
}
