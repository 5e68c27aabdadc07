use open_eidas::clock::{Duration, Timestamp};
use open_eidas::conformance::{
    cell, check_signature_algorithm, render_markdown, Entry, Finding, Findings, Matrix,
    Requirement, Severity, Status,
};
use open_eidas::matrix::system_matrix;
use open_eidas::profile::{
    check_audit_retention, check_certificate_lifetime, MAX_END_ENTITY_LIFETIME_DAYS,
    MIN_AUDIT_RETENTION_DAYS,
};

#[test]
fn check_audit_retention_accepts_the_minimum() {
    assert!(check_audit_retention(Duration::days(MIN_AUDIT_RETENTION_DAYS)).is_ok());
    assert!(check_audit_retention(Duration::days(365)).is_ok());
}

#[test]
fn check_audit_retention_rejects_unconfigured_and_short_durations() {
    assert!(check_audit_retention(Duration::seconds(0)).is_err());
    assert!(check_audit_retention(Duration::seconds(24 * 3600)).is_err());
}

#[test]
fn check_audit_retention_says_how_short_it_is() {
    assert_eq!(
        check_audit_retention(Duration::days(-3)).unwrap_err(),
        "durée de conservation du journal d'audit non configurée"
    );
    assert_eq!(
        check_audit_retention(Duration { nanos: 365 * 86_400_000_000_000 - 1 }).unwrap_err(),
        "durée de conservation du journal de 364 jours, minimum requis 365 jours"
    );
}

#[test]
fn check_certificate_lifetime_accepts_within_the_ceiling() {
    let now = Timestamp::epoch();
    assert!(check_certificate_lifetime(
        "t",
        now,
        now.plus(Duration::days(365)),
        Duration::days(MAX_END_ENTITY_LIFETIME_DAYS)
    )
    .is_ok());
}

#[test]
fn check_certificate_lifetime_rejects_beyond_the_ceiling() {
    let now = Timestamp::epoch();
    let max = Duration::days(MAX_END_ENTITY_LIFETIME_DAYS);
    let result = check_certificate_lifetime(
        "t",
        now,
        now.plus(max).plus(Duration::days(1)),
        max,
    );
    assert_eq!(
        result.unwrap_err(),
        "t: durée de vie de 1171 jours, plafond 1170 jours"
    );
}

#[test]
fn check_certificate_lifetime_rounds_days_towards_zero() {
    let now = Timestamp::epoch();
    let result = check_certificate_lifetime(
        "t",
        now,
        Timestamp { nanos: -1 },
        Duration { nanos: -86_400_000_000_001 },
    );
    assert_eq!(
        result.unwrap_err(),
        "t: durée de vie de 0 jours, plafond -1 jours"
    );
}

#[test]
fn check_signature_algorithm_accepts_sha256_with_rsa() {
    assert!(check_signature_algorithm("t", "1.2.840.113549.1.1.11").is_ok());
}

#[test]
fn check_signature_algorithm_rejects_sha1() {
    assert!(check_signature_algorithm("t", "1.2.840.113549.1.1.5").is_err());
    assert_eq!(
        check_signature_algorithm("t", "1.2.840.113549.1.1.5").unwrap_err(),
        "t: algorithme de signature 1.2.840.113549.1.1.5 refusé (SHA-1 et MD5 sont proscrits par ETSI TS 119 312)"
    );
}

#[test]
fn check_signature_algorithm_accepts_the_longer_digests() {
    assert!(check_signature_algorithm("t", "1.2.840.113549.1.1.12").is_ok());
    assert!(check_signature_algorithm("t", "1.2.840.113549.1.1.13").is_ok());
    assert!(check_signature_algorithm("t", "1.2.840.113549.1.1.1").is_err());
    assert!(check_signature_algorithm("t", "").is_err());
}

#[test]
fn system_matrix_is_internally_consistent() {
    system_matrix()
        .validate()
        .expect("la matrice doit être cohérente");
}

#[test]
fn nothing_is_covered_without_a_named_mechanism_and_test() {
    for e in &system_matrix().0 {
        if e.status == Status::Covered {
            assert!(
                !e.mechanism.is_empty(),
                "{}: mécanisme manquant",
                e.requirement.to_string()
            );
            assert!(
                !e.test.is_empty(),
                "{}: test manquant",
                e.requirement.to_string()
            );
        }
    }
}

#[test]
fn render_markdown_reports_accurate_counts() {
    let m = system_matrix();
    let md = render_markdown(&m);
    let counts = m.counts();
    assert!(md.contains(&format!("**{} exigences**", m.0.len())));
    assert!(md.contains(&format!("{} couvertes", counts.get(Status::Covered))));
}

#[test]
fn the_system_matrix_has_twenty_eight_entries_of_nine_standards() {
    let m = system_matrix();
    let counts = m.counts();
    assert_eq!(m.0.len(), 28);
    assert_eq!(counts.get(Status::Covered), 24);
    assert_eq!(counts.get(Status::Gap), 2);
    assert_eq!(counts.get(Status::OutOfScope), 2);
    assert_eq!(
        m.standards(),
        vec![
            "ETSI EN 319 401",
            "ETSI EN 319 403-1",
            "ETSI EN 319 411-1",
            "ETSI EN 319 412-1",
            "ETSI EN 319 421",
            "ETSI EN 319 422",
            "ETSI TS 119 312",
            "RFC 5280",
            "RFC 6960",
        ]
    );
}

#[test]
fn the_system_matrix_keeps_its_texts_word_for_word() {
    let m = system_matrix();
    let cited = |citation: &str| {
        let found: Vec<&Entry> =
            m.0.iter().filter(|e| e.requirement.to_string() == citation).collect();
        assert_eq!(found.len(), 1, "{citation}");
        found[0]
    };
    assert_eq!(
        cited("ETSI EN 319 411-1 §6.3.2").mechanism,
        "oe_conformance::check_certificate_lifetime relit la validité du certificat réellement signé et la compare à un plafond indépendant du profil (MAX_END_ENTITY_LIFETIME/MAX_OCSP_LIFETIME) ; appelé via le champ Profile::check de oe_ca_core::Issuer::issue, comme profile.Check (Go)."
    );
    assert_eq!(
        cited("ETSI EN 319 401 §6.1").target,
        "Adoption formelle de docs/CPS.md par l'association (organisationnel, non affecté par le portage Rust)."
    );
}

fn entry(clause: &'static str, status: Status, mechanism: &'static str, test: &'static str, target: &'static str) -> Entry {
    Entry {
        requirement: Requirement { standard: "X", clause, title: "t" },
        status,
        mechanism,
        test,
        target,
    }
}

#[test]
fn detects_a_covered_entry_without_mechanism() {
    let bad = Matrix(vec![entry("1", Status::Covered, "", "", "")]);
    assert!(bad.validate().is_err());
    assert_eq!(
        bad.validate().unwrap_err(),
        "matrice de conformité incohérente: X 1: couvert mais aucun mécanisme nommé ; X 1: couvert mais aucun test nommé"
    );
}

#[test]
fn validate_reports_every_problem_in_order() {
    let bad = Matrix(vec![
        entry("", Status::Gap, "", "", ""),
        entry("2", Status::OutOfScope, "m", "", ""),
        entry("", Status::Covered, "m", "t", ""),
    ]);
    assert_eq!(
        bad.validate().unwrap_err(),
        "matrice de conformité incohérente: X: écart sans mesure compensatoire ; X: écart sans cible de levée ; X 2: hors périmètre sans mesure attendue ; X: exigence déclarée deux fois"
    );
    assert!(Matrix::default().validate().is_ok());
}

#[test]
fn cells_are_safe_in_a_table() {
    assert_eq!(cell("  a | b\n\tc\u{a0}\u{3000}d  "), "a \\| b c d");
    assert_eq!(cell(" \n "), "");
    assert_eq!(cell("é"), "é");
    assert_eq!(cell("|"), "\\|");
}

#[test]
fn markdown_groups_the_rows_by_standard() {
    let m = Matrix(vec![
        Entry {
            requirement: Requirement { standard: "B", clause: "§1", title: "un | deux" },
            status: Status::Covered,
            mechanism: "m1",
            test: "t1",
            target: "",
        },
        Entry {
            requirement: Requirement { standard: "A", clause: "", title: "trois" },
            status: Status::Gap,
            mechanism: "m2",
            test: "",
            target: "plus tard",
        },
    ]);
    let md = render_markdown(&m);
    let tables = "## A\n\n| Clause | Exigence | Statut | Mécanisme | Vérification / cible |\n|---|---|---|---|---|\n|  | trois | écart documenté | m2 | **Cible :** plus tard |\n\n## B\n\n| Clause | Exigence | Statut | Mécanisme | Vérification / cible |\n|---|---|---|---|---|\n| §1 | un \\| deux | couvert | m1 | t1 |\n\n";
    assert!(md.ends_with(tables), "{md}");
    assert!(md.starts_with("# Matrice de conformité ETSI\n\n<!-- "));
    assert!(md.contains(
        "**2 exigences** — 1 couvertes, 1 écarts documentés, 0 hors périmètre logiciel.\n\n"
    ));
}

fn finding(severity: Severity, detail: &str) -> Finding {
    Finding {
        requirement: Requirement { standard: "S", clause: "§1", title: "titre" },
        severity,
        detail: detail.to_string(),
    }
}

#[test]
fn findings_split_by_severity() {
    let findings = Findings(vec![
        finding(Severity::Advisory, "a"),
        finding(Severity::Blocking, "b"),
        finding(Severity::Blocking, "c"),
    ]);
    assert_eq!(findings.blocking().len(), 2);
    assert_eq!(findings.advisories().len(), 1);
    assert_eq!(
        findings.err().unwrap(),
        "non-conformité ETSI: [bloquant] S §1 — titre : b ; [bloquant] S §1 — titre : c"
    );
    assert_eq!(
        findings.advisories()[0].to_string(),
        "[avertissement] S §1 — titre : a"
    );
    assert!(Findings::default().err().is_none());
    assert!(Findings(vec![finding(Severity::Advisory, "a")]).err().is_none());
}

#[test]
fn labels_of_the_three_statuses() {
    assert_eq!(Status::Covered.label(), "couvert");
    assert_eq!(Status::Gap.label(), "écart documenté");
    assert_eq!(Status::OutOfScope.label(), "hors périmètre logiciel");
}
