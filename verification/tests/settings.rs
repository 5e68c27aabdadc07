//! The settings of the responder.
use open_eidas::conformance::{Entry, Requirement, Status};
use open_eidas::settings::{
    already_enrolled, bind_addr, entry_line, env_bool, env_str, env_u64, oe_config_duration,
    parse_number, Config, CrlTrust, Environment, TimeUnit,
};

fn environment() -> Environment {
    Environment {
        key_bits: None,
        pin: Some("1234".to_string()),
        pki_internal_url: Some("https://pki.internal".to_string()),
        listen: None,
        max_request_bytes: None,
        pkcs11_module: None,
        token_label: None,
        key_label: None,
        cert_file: None,
        chain_file: None,
        enroll_endpoint: None,
        enroll_ca_file: None,
        enroll_insecure: None,
        enroll_timeout: None,
        enroll_hmac_key: None,
        enroll_profile: None,
        subject_cn: None,
        pki_insecure: None,
        pki_ca_file: None,
        crl_refresh: None,
    }
}

fn some(text: &str) -> Option<String> {
    Some(text.to_string())
}

#[test]
fn a_port_alone_is_every_interface() {
    assert_eq!(bind_addr(":8319"), "0.0.0.0:8319");
    assert_eq!(bind_addr("127.0.0.1:8319"), "127.0.0.1:8319");
    assert_eq!(bind_addr(""), "");
    assert_eq!(bind_addr(":"), "0.0.0.0:");
}

#[test]
fn empty_values_are_not_set() {
    assert_eq!(env_str(&some("x"), "f"), "x");
    assert_eq!(env_str(&some(""), "f"), "f");
    assert_eq!(env_str(&None, "f"), "f");
    assert!(env_bool(&some("true"), false));
    assert!(!env_bool(&some("false"), true));
    assert!(env_bool(&some("1"), true));
    assert!(!env_bool(&some(""), false));
    assert_eq!(env_u64(&some("12"), 3), 12);
    assert_eq!(env_u64(&some("douze"), 3), 3);
    assert_eq!(env_u64(&some(""), 3), 3);
    assert_eq!(env_u64(&None, 3), 3);
}

#[test]
fn numbers_are_read_as_the_standard_library_reads_them() {
    let texts = [
        "", "+", "-1", "0", "+7", "007", "18446744073709551615", "18446744073709551616", "1 ", "++1",
        "99999999999999999999", "1e3", "٣",
    ];
    for text in texts {
        assert_eq!(parse_number(text), text.parse::<u64>().ok(), "{text}");
    }
}

#[test]
fn spans_of_time_are_parted() {
    let part = |text: &str| oe_config_duration(text).map(|(n, u)| (n, u));
    assert_eq!(part("5m"), Some(("5".to_string(), TimeUnit::Minutes)));
    assert_eq!(part(" 30s\n"), Some(("30".to_string(), TimeUnit::Seconds)));
    assert_eq!(part("24h"), Some(("24".to_string(), TimeUnit::Hours)));
    assert_eq!(part("1.5ms"), Some(("1.5".to_string(), TimeUnit::Milliseconds)));
    assert_eq!(part("7us"), Some(("7".to_string(), TimeUnit::Microseconds)));
    assert_eq!(part("7µs"), Some(("7".to_string(), TimeUnit::Microseconds)));
    assert_eq!(part("7ns"), Some(("7".to_string(), TimeUnit::Nanoseconds)));
    assert_eq!(part("s"), Some((String::new(), TimeUnit::Seconds)));
    assert_eq!(part("5"), None);
    assert_eq!(part("5d"), None);
    assert_eq!(part("5m30s"), None);
    assert_eq!(part(""), None);
}

#[test]
fn the_usual_values_are_taken() {
    let c = Config::load(&environment()).unwrap();
    assert_eq!(c.listen, ":8319");
    assert_eq!(c.max_request_bytes, 16 * 1024);
    assert_eq!(c.pkcs11_module, "/usr/lib/softhsm/libsofthsm2.so");
    assert_eq!(c.token_label, "open-eidas-ocsp");
    assert_eq!(c.key_label, "ocsp-signing-key");
    assert_eq!(c.key_bits, 3072);
    assert_eq!(c.pin, "1234");
    assert_eq!(c.cert_file, "/var/lib/open-eidas/ocsp.pem");
    assert_eq!(c.chain_file, "/var/lib/open-eidas/chain.pem");
    assert_eq!(c.enroll_profile, "ocsp_responder");
    assert_eq!(c.subject_cn, "Open eIDAS OCSP Responder 1");
    assert_eq!(c.pki_internal_url, "https://pki.internal");
    assert!(!c.enroll_insecure);
    assert_eq!(c.enroll_timeout, 300_000_000_000);
    assert_eq!(c.crl_refresh, 300_000_000_000);
    assert_eq!(c.crl_trust(), CrlTrust::System);
    assert_eq!(c.enroll_anchor(), None);
}

#[test]
fn what_is_missing_or_too_short_is_refused() {
    let mut e = environment();
    e.key_bits = some("2048");
    e.pin = None;
    assert_eq!(
        Config::load(&e).unwrap_err(),
        "OPENEIDAS_KEY_BITS=2048: ETSI TS 119 312 impose au moins 3072 bits pour RSA"
    );
    e.key_bits = some("4096");
    assert_eq!(
        Config::load(&e).unwrap_err(),
        "OPENEIDAS_PIN est obligatoire (code PIN du token PKCS#11)"
    );
    e.pin = some("0");
    e.pki_internal_url = some("");
    assert!(Config::load(&e).unwrap_err().starts_with("OPENEIDAS_PKI_INTERNAL_URL est obligatoire"));
}

#[test]
fn an_anchor_goes_before_any_tolerance() {
    let mut e = environment();
    e.pki_insecure = some("true");
    assert_eq!(Config::load(&e).unwrap().crl_trust(), CrlTrust::Anything);
    e.pki_ca_file = some("/ca.pem");
    assert_eq!(Config::load(&e).unwrap().crl_trust(), CrlTrust::Anchor);
    e.enroll_ca_file = some("/e.pem");
    assert_eq!(Config::load(&e).unwrap().enroll_anchor(), some("/e.pem"));
}

#[test]
fn an_enrolled_key_is_recognised() {
    assert!(already_enrolled(Some(&[1, 2]), Some(&[1, 2])));
    assert!(!already_enrolled(Some(&[1, 2]), Some(&[1, 3])));
    assert!(!already_enrolled(None, Some(&[1])));
    assert!(!already_enrolled(None, None));
}

#[test]
fn entries_are_listed_on_one_line() {
    let e = Entry {
        requirement: Requirement { standard: "X", clause: "1", title: "t" },
        status: Status::Gap,
        mechanism: "",
        test: "",
        target: "",
    };
    assert_eq!(entry_line(&e), "X 1 — t : écart documenté");
}
