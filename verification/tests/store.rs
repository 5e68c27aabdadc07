//! The store in memory, and what the rows of a database mean.
use open_eidas::castore::{
    Authority, Certificate, CertificateStatus, Crl, Request, RequestState, StoreError,
};
use open_eidas::clock::{Duration, Timestamp};
use open_eidas::memory::Memory;
use open_eidas::rows::{
    certificate_from_row, insert_result, interval_text, is_unique_violation, optional_serial_key,
    request_from_row, revoke_result, revoke_step, save_certificate_result, serial_from_hex,
    serial_key, serials_from_hex, state_from_str, status_from_str, status_str,
    update_request_result, CertificateRow, RequestRow, RevokeStep, SqlFault,
};

fn day(n: i64) -> Timestamp {
    Timestamp::epoch().plus(Duration::days(n))
}

fn far_future() -> Timestamp {
    day(365 * 50)
}

fn cert(serial: &[u8], subject: &str, status: CertificateStatus, not_after: Timestamp) -> Certificate {
    Certificate {
        serial: serial.to_vec(),
        profile: "tsa_signer".to_string(),
        subject_dn: subject.to_string(),
        issuer_dn: "CN=Test CA".to_string(),
        not_before: Timestamp::epoch(),
        not_after,
        der: vec![1, 2, 3],
        status,
        revoked_at: None,
        revocation_reason: 0,
        request_transaction_id: "tx".to_string(),
    }
}

fn issued(store: &mut Memory, serial: &[u8], subject: &str, not_after: Timestamp) {
    store.reserve_serial(&serial.to_vec(), "tsa_signer").unwrap();
    store
        .save_certificate(cert(serial, subject, CertificateStatus::Issued, not_after))
        .unwrap();
}

fn request(transaction_id: &str, fingerprint: &str, created_at: Timestamp) -> Request {
    Request {
        transaction_id: transaction_id.to_string(),
        csr_fingerprint: fingerprint.to_string(),
        csr_der: vec![],
        profile: "tsa_signer".to_string(),
        subject_cn: "test".to_string(),
        state: RequestState::Pending,
        created_at,
        decided_at: None,
        operator: String::new(),
        comment: String::new(),
        issued_at: None,
        certificate_serial: None,
    }
}

#[test]
fn lib_reserve_serial_then_save_round_trips() {
    let mut store = Memory::new();
    let serial = vec![1u8; 16];
    store.reserve_serial(&serial, "tsa_signer").unwrap();
    assert!(
        matches!(store.certificate(&serial), Err(StoreError::NotFound)),
        "réservé mais non signé doit rester invisible"
    );
    store
        .save_certificate(cert(&serial, "CN=test", CertificateStatus::Issued, far_future()))
        .unwrap();
    let got = store.certificate(&serial).unwrap();
    assert_eq!(got.subject_dn, "CN=test");
    assert_eq!(got.der, vec![1, 2, 3]);
}

#[test]
fn lib_reserve_serial_twice_conflicts() {
    let mut store = Memory::new();
    let serial = vec![2u8; 16];
    store.reserve_serial(&serial, "tsa_signer").unwrap();
    assert!(matches!(
        store.reserve_serial(&serial, "tsa_signer"),
        Err(StoreError::SerialTaken)
    ));
}

#[test]
fn lib_revoke_is_idempotent_on_first_date() {
    let mut store = Memory::new();
    let serial = vec![3u8; 16];
    issued(&mut store, &serial, "CN=test", far_future());
    let first = day(1);
    let second = day(2);
    store.revoke(&serial, first, 1).unwrap();
    store.revoke(&serial, second, 2).unwrap();
    let got = store.certificate(&serial).unwrap();
    assert_eq!(got.revoked_at, Some(first), "la première révocation doit faire foi");
    assert_eq!(got.revocation_reason, 1);
}

#[test]
fn lib_create_request_rejects_duplicate_fingerprint() {
    let mut store = Memory::new();
    let r = request("tx1", "fp1", Timestamp::epoch());
    store.create_request(r.clone()).unwrap();
    let mut dup = r.clone();
    dup.transaction_id = "tx2".to_string();
    assert!(matches!(store.create_request(dup), Err(StoreError::Conflict)));
    let mut same = r.clone();
    same.csr_fingerprint = "fp2".to_string();
    assert!(matches!(store.create_request(same), Err(StoreError::Conflict)));
}

#[test]
fn lib_update_request_requires_expected_from_state() {
    let mut store = Memory::new();
    let r = request("tx1", "fp1", Timestamp::epoch());
    store.create_request(r.clone()).unwrap();
    let mut approved = r.clone();
    approved.state = RequestState::Approved;
    assert!(matches!(
        store.update_request(approved.clone(), RequestState::Rejected),
        Err(StoreError::Conflict)
    ));
    store.update_request(approved, RequestState::Pending).unwrap();
    assert_eq!(
        store.request_by_transaction_id("tx1").unwrap().state,
        RequestState::Approved
    );
    let unknown = request("tx9", "fp9", Timestamp::epoch());
    assert!(matches!(
        store.update_request(unknown, RequestState::Pending),
        Err(StoreError::NotFound)
    ));
}

#[test]
fn crl_numbers_increase_and_latest_wins() {
    let mut store = Memory::new();
    assert!(matches!(store.latest_crl(), Err(StoreError::NotFound)));
    assert_eq!(store.next_crl_number().unwrap(), 1);
    assert_eq!(store.next_crl_number().unwrap(), 2);
    let crl = |number: i64, der: Vec<u8>| Crl {
        number,
        der,
        this_update: Timestamp::epoch(),
        next_update: Timestamp::epoch(),
    };
    store.save_crl(crl(1, vec![])).unwrap();
    store.save_crl(crl(2, vec![9])).unwrap();
    assert_eq!(store.latest_crl().unwrap().number, 2);
    store.save_crl(crl(1, vec![7])).unwrap();
    assert_eq!(store.latest_crl().unwrap().der, vec![9]);
    store.save_crl(crl(2, vec![8])).unwrap();
    assert_eq!(store.latest_crl().unwrap().der, vec![8]);
}

#[test]
fn issued_serials_lists_issued_and_revoked_but_not_reserved() {
    let mut s = Memory::new();
    let issued_serial = vec![0x20u8, 1];
    issued(&mut s, &issued_serial, "CN=test-pg", far_future());
    let revoked = vec![0x10u8, 2];
    issued(&mut s, &revoked, "CN=test-pg", far_future());
    s.revoke(&revoked, day(1), 1).unwrap();
    let reserved_only = vec![0x30u8, 3];
    s.reserve_serial(&reserved_only, "tsa_signer").unwrap();
    let all = s.issued_serials().unwrap();
    assert!(all.contains(&issued_serial), "un certificat émis doit y figurer");
    assert!(all.contains(&revoked), "un certificat révoqué doit y figurer aussi");
    assert!(
        !all.contains(&reserved_only),
        "une réservation non signée ne doit jamais y figurer"
    );
    assert_eq!(all, vec![revoked, issued_serial]);
}

#[test]
fn saving_needs_a_reservation() {
    let mut store = Memory::new();
    let line = cert(&[4], "CN=test", CertificateStatus::Issued, far_future());
    assert!(matches!(store.save_certificate(line.clone()), Err(StoreError::NotFound)));
    store.reserve_serial(&vec![4], "tsa_signer").unwrap();
    store.save_certificate(line.clone()).unwrap();
    assert!(matches!(store.save_certificate(line), Err(StoreError::Conflict)));
}

#[test]
fn only_what_is_signed_can_be_revoked() {
    let mut store = Memory::new();
    assert!(matches!(store.revoke(&vec![5], day(1), 1), Err(StoreError::NotFound)));
    store.reserve_serial(&vec![5], "tsa_signer").unwrap();
    assert!(matches!(store.revoke(&vec![5], day(1), 1), Err(StoreError::NotFound)));
}

#[test]
fn active_certificates_are_those_of_the_subject_that_are_not_expired() {
    let mut store = Memory::new();
    issued(&mut store, &[9], "CN=a", day(10));
    issued(&mut store, &[7], "CN=a", day(20));
    issued(&mut store, &[8], "CN=b", day(20));
    issued(&mut store, &[6], "CN=a", day(20));
    store.revoke(&vec![6], day(1), 1).unwrap();
    let serials = |now: Timestamp| -> Vec<Vec<u8>> {
        store.active_by_subject("CN=a", now).unwrap().into_iter().map(|c| c.serial).collect()
    };
    assert_eq!(serials(day(5)), vec![vec![7], vec![9]]);
    assert_eq!(serials(day(10)), vec![vec![7]]);
    assert!(serials(day(20)).is_empty());
}

#[test]
fn revoked_certificates_leave_the_list_after_the_grace() {
    let mut store = Memory::new();
    issued(&mut store, &[2], "CN=a", day(10));
    issued(&mut store, &[1], "CN=a", day(30));
    store.revoke(&vec![2], day(1), 1).unwrap();
    store.revoke(&vec![1], day(1), 4).unwrap();
    let count = |now: Timestamp| store.revoked(now, Duration::days(2)).unwrap().len();
    assert_eq!(count(day(12)), 2);
    assert_eq!(count(day(13)), 1);
    assert_eq!(store.issued_serials().unwrap().len(), 2);
}

#[test]
fn requests_come_oldest_first() {
    let mut store = Memory::new();
    store.create_request(request("b", "f1", day(2))).unwrap();
    store.create_request(request("c", "f2", day(1))).unwrap();
    store.create_request(request("a", "f3", day(2))).unwrap();
    let ids = |state: Option<RequestState>, store: &Memory| -> Vec<String> {
        store.requests(state).unwrap().into_iter().map(|r| r.transaction_id).collect()
    };
    assert_eq!(ids(None, &store), vec!["c", "a", "b"]);
    let mut rejected = store.request_by_fingerprint("f3").unwrap();
    rejected.state = RequestState::Rejected;
    store.update_request(rejected, RequestState::Pending).unwrap();
    assert_eq!(ids(Some(RequestState::Pending), &store), vec!["c", "b"]);
    assert_eq!(ids(Some(RequestState::Rejected), &store), vec!["a"]);
    assert!(ids(Some(RequestState::Issued), &store).is_empty());
    assert!(matches!(store.request_by_fingerprint("f9"), Err(StoreError::NotFound)));
    assert!(matches!(store.request_by_transaction_id("z"), Err(StoreError::NotFound)));
}

#[test]
fn authorities_are_kept_by_name() {
    let mut store = Memory::default();
    assert!(matches!(store.authority("root"), Err(StoreError::NotFound)));
    let authority = |label: &str| Authority {
        name: "root".to_string(),
        subject_dn: "CN=Root".to_string(),
        der: vec![1],
        token_label: label.to_string(),
        key_label: "k".to_string(),
        created_at: Timestamp::epoch(),
    };
    store.save_authority(authority("one")).unwrap();
    store.save_authority(authority("two")).unwrap();
    assert_eq!(store.authority("root").unwrap().token_label, "two");
}

#[test]
fn errors_and_states_have_their_words() {
    assert_eq!(StoreError::NotFound.to_string(), "castore: introuvable");
    assert_eq!(
        StoreError::SerialTaken.to_string(),
        "castore: numéro de série déjà réservé"
    );
    assert_eq!(StoreError::Conflict.to_string(), "castore: état modifié entre-temps");
    assert_eq!(StoreError::Other("x".to_string()).to_string(), "castore: x");
    let words = [
        (RequestState::Pending, "PENDING"),
        (RequestState::Approved, "APPROVED"),
        (RequestState::Issued, "ISSUED"),
        (RequestState::Rejected, "REJECTED"),
    ];
    for (state, word) in words {
        assert_eq!(state.to_string(), word);
        assert_eq!(state_from_str(word).unwrap(), state);
    }
    assert!(state_from_str("pending").is_err());
    let words = [
        (CertificateStatus::Reserved, "reserved"),
        (CertificateStatus::Issued, "issued"),
        (CertificateStatus::Revoked, "revoked"),
    ];
    for (status, word) in words {
        assert_eq!(status_str(status), word);
        assert_eq!(status_from_str(word).unwrap(), status);
    }
    assert!(status_from_str("").is_err());
}

#[test]
fn serial_numbers_are_kept_in_hexadecimal() {
    assert_eq!(serial_key(&[0x0a, 0xff, 0x00]), "0aff00");
    assert_eq!(serial_from_hex("0AfF00").unwrap(), vec![0x0a, 0xff, 0x00]);
    assert!(serial_from_hex("0a f").is_err());
    assert!(serial_from_hex("abc").is_err());
    assert_eq!(
        serials_from_hex(&vec!["01".to_string(), "0203".to_string()]).unwrap(),
        vec![vec![1], vec![2, 3]]
    );
    assert!(serials_from_hex(&vec!["01".to_string(), "x".to_string()]).is_err());
    assert_eq!(optional_serial_key(&Some(vec![0xab])), Some("ab".to_string()));
    assert_eq!(optional_serial_key(&None), None);
    match serial_from_hex("zz") {
        Err(e) => assert!(
            e.to_string().contains("castore: numéro de série illisible en base: "),
            "{}",
            e.to_string()
        ),
        Ok(_) => panic!("zz"),
    }
}

fn certificate_row() -> CertificateRow {
    CertificateRow {
        serial_hex: "0102".to_string(),
        profile: "tsa_signer".to_string(),
        subject_dn: "CN=a".to_string(),
        issuer_dn: "CN=ca".to_string(),
        not_before: None,
        not_after: Some(day(3)),
        der: None,
        status: "issued".to_string(),
        revoked_at: None,
        revocation_reason: 0,
        request_transaction_id: "tx".to_string(),
    }
}

#[test]
fn rows_of_certificates_are_read() {
    let c = certificate_from_row(certificate_row()).unwrap();
    assert_eq!(c.serial, vec![1, 2]);
    assert_eq!(c.not_before, Timestamp::epoch());
    assert_eq!(c.not_after, day(3));
    assert_eq!(c.der, Vec::<u8>::new());
    assert_eq!(c.status, CertificateStatus::Issued);
    let mut row = certificate_row();
    row.serial_hex = "q".to_string();
    assert!(certificate_from_row(row).is_err());
    let mut row = certificate_row();
    row.status = "lost".to_string();
    assert!(certificate_from_row(row).is_err());
}

#[test]
fn rows_of_requests_are_read() {
    let row = |state: &str, serial: Option<&str>| RequestRow {
        transaction_id: "tx".to_string(),
        csr_fingerprint: "fp".to_string(),
        csr_der: vec![1],
        profile: "p".to_string(),
        subject_cn: "cn".to_string(),
        state: state.to_string(),
        created_at: day(1),
        decided_at: None,
        operator: "op".to_string(),
        comment: "c".to_string(),
        issued_at: None,
        certificate_serial_hex: serial.map(|s| s.to_string()),
    };
    let r = request_from_row(row("ISSUED", Some("0a"))).unwrap();
    assert_eq!(r.state, RequestState::Issued);
    assert_eq!(r.certificate_serial, Some(vec![10]));
    assert_eq!(request_from_row(row("PENDING", None)).unwrap().certificate_serial, None);
    assert!(request_from_row(row("PENDING", Some("0"))).is_err());
    assert!(request_from_row(row("?", None)).is_err());
}

#[test]
fn outcomes_of_statements_are_told_apart() {
    let fault = |code: Option<&str>| SqlFault {
        code: code.map(|c| c.to_string()),
        message: "m".to_string(),
    };
    assert!(is_unique_violation(&fault(Some("23505"))));
    assert!(!is_unique_violation(&fault(Some("23503"))));
    assert!(!is_unique_violation(&fault(None)));
    assert!(insert_result(Ok(()), StoreError::SerialTaken).is_ok());
    assert!(matches!(
        insert_result(Err(fault(Some("23505"))), StoreError::SerialTaken),
        Err(StoreError::SerialTaken)
    ));
    assert!(matches!(
        insert_result(Err(fault(None)), StoreError::SerialTaken),
        Err(StoreError::Other(_))
    ));
    assert!(save_certificate_result(1).is_ok());
    assert!(matches!(save_certificate_result(0), Err(StoreError::Conflict)));
    assert!(matches!(revoke_step(1), RevokeStep::Done));
    assert!(matches!(revoke_step(0), RevokeStep::AskStatus));
    assert!(revoke_result(Some("revoked")).is_ok());
    assert!(matches!(revoke_result(Some("reserved")), Err(StoreError::NotFound)));
    assert!(matches!(revoke_result(None), Err(StoreError::NotFound)));
    assert!(matches!(update_request_result(true), StoreError::Conflict));
    assert!(matches!(update_request_result(false), StoreError::NotFound));
    assert_eq!(interval_text(Duration::seconds(3600)), "3600 seconds");
    assert_eq!(interval_text(Duration { nanos: -1_500_000_000 }), "-1 seconds");
}
