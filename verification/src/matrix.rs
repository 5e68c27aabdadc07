//! The conformance matrix of the system, entry by entry.
use vstd::prelude::*;

use crate::conformance::{Entry, Matrix, Requirement, Status};

verus! {

pub const EN_319_401: &'static str = "ETSI EN 319 401";

pub const EN_319_411_1: &'static str = "ETSI EN 319 411-1";

pub const RFC_6960: &'static str = "RFC 6960";

pub const EN_319_412_1: &'static str = "ETSI EN 319 412-1";

pub const RFC_5280: &'static str = "RFC 5280";

pub const EN_319_421: &'static str = "ETSI EN 319 421";

pub const EN_319_422: &'static str = "ETSI EN 319 422";

pub const TS_119_312: &'static str = "ETSI TS 119 312";

pub const EN_319_403_1: &'static str = "ETSI EN 319 403-1";

pub const KEYS_TITLE: &'static str = "Gestion des clés du prestataire dans un module cryptographique";

pub const KEYS_MECHANISM: &'static str = "Toutes les clés vivent dans un token PKCS#11 et n'en sortent jamais : oe-hsm::Pkcs11Token, validé contre un vrai token SoftHSM2 (crates/oe-hsm/tests/pkcs11_integration.rs).";

pub const KEYS_TEST: &'static str = "crates/oe-hsm/tests/pkcs11_integration.rs";

pub const LOGGING_TITLE: &'static str = "Journalisation des événements et durée de conservation";

pub const LOGGING_MECHANISM: &'static str = "Journal JSON Lines chaîné par SHA-256 (oe-audit) ; durée de conservation contrôlée à la configuration par oe_conformance::check_audit_retention, branché sur bin/ca-server::Config::load.";

pub const LOGGING_TEST: &'static str = "crates/oe-audit/src/lib.rs (deux_ecrivains_partagent_la_meme_chaine), crates/oe-conformance/src/lib.rs (check_audit_retention_accepts_the_minimum, check_audit_retention_rejects_unconfigured_and_short_durations)";

pub const INTEGRITY_TITLE: &'static str = "Intégrité démontrable des enregistrements d'audit";

pub const INTEGRITY_MECHANISM: &'static str = "Chaînage par hachage vérifié intégralement à l'ouverture ; verrou de fichier partagé entre plusieurs écrivains d'un même processus : oe-audit::Log.";

pub const INTEGRITY_TEST: &'static str = "crates/oe-audit/src/lib.rs (deux_ecrivains_partagent_la_meme_chaine, verify_detects_modified_record, verify_detects_truncated_and_rewritten_tail)";

pub const CONTINUITY_TITLE: &'static str = "Continuité d'activité et reprise après sinistre";

pub const CONTINUITY_MECHANISM: &'static str = "Contreseing du journal par une TSA tierce (oe-crosstsa) et réplication WebDAV hors site (oe-replicate), validés contre un vrai serveur.";

pub const CONTINUITY_TEST: &'static str = "crates/oe-crosstsa/tests/against_local_server.rs (seals_a_digest_against_a_real_rfc3161_server), crates/oe-replicate/tests/against_local_server.rs (replicates_content_via_webdav_put)";

pub const TERMINATION_TITLE: &'static str = "Plan de cessation d'activité";

pub const TERMINATION_MECHANISM: &'static str = "Procédure organisationnelle décrite dans docs/CA.md, indépendante du langage d'implémentation.";

pub const TERMINATION_TARGET: &'static str = "Engagement juridique de l'association, dépôt auprès de l'organe de contrôle, séquestre des journaux.";

pub const CA_PROFILE_TITLE: &'static str = "Profil du certificat d'autorité de certification";

pub const CA_PROFILE_MECHANISM: &'static str = "Cérémonie produisant une racine et une CA émettrice au profil contrôlé (CA:TRUE critique, keyCertSign+cRLSign, SKI/AKI) : oe_ca_core::ceremony::run_ceremony, chaîne revérifiée par openssl.";

pub const CA_PROFILE_TEST: &'static str = "crates/oe-ca-core/tests/issuance.rs (ceremony_is_idempotent, ceremony_rejects_mismatched_signer_on_replay, openssl_accepts_the_chain_and_honors_revocation)";

pub const DECISION_TITLE: &'static str = "Enregistrement et responsabilité de la décision d'émission";

pub const DECISION_MECHANISM: &'static str = "Aucune transition vers Approved n'existe sans identité d'opérateur : oe_raflow::Decider::approve/reject. L'identité est consignée en base et au journal d'audit.";

pub const DECISION_TEST: &'static str = "crates/oe-raflow/tests/flow.rs (decide_without_operator_identity_is_refused, approve_then_resubmit_issues_a_certificate_signed_by_the_issuing_key)";

pub const AUTHENTICATION_TITLE: &'static str = "Authentification de la demande de certificat";

pub const AUTHENTICATION_MECHANISM: &'static str = "HMAC-SHA256 sur la CSR DER, vérifié en temps constant, et vérification de l'auto-signature de la CSR (preuve de possession) : oe_raflow::Flow::submit.";

pub const AUTHENTICATION_TEST: &'static str = "crates/oe-raflow/tests/flow.rs (submit_without_valid_hmac_is_unauthenticated, submit_opens_a_pending_request_idempotently)";

pub const LIFETIME_TITLE: &'static str = "Durée de vie du certificat plafonnée";

pub const LIFETIME_MECHANISM: &'static str = "oe_conformance::check_certificate_lifetime relit la validité du certificat réellement signé et la compare à un plafond indépendant du profil (MAX_END_ENTITY_LIFETIME/MAX_OCSP_LIFETIME) ; appelé via le champ Profile::check de oe_ca_core::Issuer::issue, comme profile.Check (Go).";

pub const LIFETIME_TEST: &'static str = "crates/oe-conformance/src/lib.rs (check_certificate_lifetime_accepts_within_the_ceiling, check_certificate_lifetime_rejects_beyond_the_ceiling), crates/oe-conformance/tests/tsu_certificate.rs";

pub const REASON_TITLE: &'static str = "Motif de révocation consigné";

pub const REASON_MECHANISM: &'static str = "Motif RFC 5280 obligatoire à la révocation (Issuer::revoke), persisté et repris dans chaque entrée de CRL avec son extension cRLReason.";

pub const REASON_TEST: &'static str = "crates/oe-ca-core/tests/issuance.rs (revoke_is_idempotent_and_keeps_first_reason, revoke_then_publish_crl_lists_the_certificate)";

pub const PUBLICATION_TITLE: &'static str = "Publication régulière de l'état de révocation";

pub const PUBLICATION_MECHANISM: &'static str = "oe_ca_core::Issuer::publish_crl produit une CRL signée, republiable même vide ; bin/ca-server::http::Server republie à intervalle régulier et dégrade /healthz (503) dès que la CRL servie est périmée, plutôt que de se déclarer sain sans pouvoir dire ce qui est révoqué.";

pub const PUBLICATION_TEST: &'static str = "crates/oe-ca-core/tests/issuance.rs (revoke_then_publish_crl_lists_the_certificate), bin/ca-server/tests/crl_publication.rs (crl_is_republished_periodically, healthz_degrades_when_the_published_crl_is_stale)";

pub const ONLINE_STATUS_TITLE: &'static str = "Service d'état de révocation interrogeable en ligne";

pub const ONLINE_STATUS_MECHANISM: &'static str = "Répondeur OCSP RFC 6960 s'appuyant sur la CRL publiée par la CA : oe_ocsp_core::Responder.";

pub const ONLINE_STATUS_TEST: &'static str = "crates/oe-ocsp-core/tests/against_real_crl.rs (reports_good_status_for_a_non_revoked_certificate, reports_revoked_status_for_a_revoked_certificate)";

pub const CEREMONY_TITLE: &'static str = "Cérémonie de génération des clés d'autorité";

pub const CEREMONY_MECHANISM: &'static str = "Cérémonie scriptée et idempotente (`ca-server ceremony`), produisant un procès-verbal consigné au journal d'audit (empreintes de clés, opérateur, date) : oe_ca_core::ceremony.";

pub const CEREMONY_TEST: &'static str = "crates/oe-ca-core/tests/issuance.rs (every_authority_decision_is_recorded)";

pub const CEREMONY_TARGET: &'static str = "Cérémonie en double contrôle, sous témoin indépendant, sur HSM certifié, avec procès-verbal contresigné — écart organisationnel, pas seulement logiciel.";

pub const STRUCTURES_TITLE: &'static str = "Structures communes du profil de certificat";

pub const STRUCTURES_MECHANISM: &'static str = "Profils définis en structures Rust compilées, pas en configuration interprétée : oe_ca_core::profile. Contrôle de criticité (basicConstraints, keyUsage, EKU) posé à la main, vérifié par openssl.";

pub const STRUCTURES_TEST: &'static str = "crates/oe-ca-core/tests/issuance.rs (openssl_accepts_the_chain_and_honors_revocation)";

pub const SERIAL_TITLE: &'static str = "Numéro de série positif et imprévisible";

pub const SERIAL_MECHANISM: &'static str = "Numéro de série de 128 bits tiré sur rand::thread_rng et réservé de façon atomique (contrainte d'unicité en base) : oe_ca_core::Issuer::reserve_serial, oe_castore::Store::reserve_serial.";

pub const SERIAL_TEST: &'static str = "crates/oe-castore/src/lib.rs (reserve_serial_twice_conflicts), crates/oe-castore/tests/postgres.rs (reserve_serial_twice_conflicts)";

pub const KEY_IDENTIFIERS_TITLE: &'static str = "Identifiants de clé de sujet et d'autorité présents";

pub const KEY_IDENTIFIERS_MECHANISM: &'static str = "subjectKeyIdentifier (SHA-1 de la clé, méthode 1) et authorityKeyIdentifier (pointant vers le SKI de l'émetteur) posés sans condition à l'émission et dans la cérémonie : oe_ca_core::extensions, oe_ca_core::signing::subject_key_id.";

pub const KEY_IDENTIFIERS_TEST: &'static str = "crates/oe-ca-core/tests/issuance.rs (issue_produces_a_certificate_signed_by_the_issuing_key, assert_ski_and_aki_present_and_linked)";

pub const TIME_TITLE: &'static str = "Traçabilité de l'heure jusqu'à UTC et suspension en cas de dérive";

pub const TIME_MECHANISM: &'static str = "Surveillance NTP multi-sources avec quorum, seuil de dérive (MaxOffset) et péremption (MaxAge) ; la politique enforce fait refuser chaque demande avec timeNotAvailable : oe_timesource::Monitor.";

pub const TIME_TEST: &'static str = "crates/oe-timesource/src/lib.rs (now_refuses_untraceable_time_in_enforce_mode, now_allows_untraceable_time_in_monitor_mode, new_rejects_quorum_larger_than_source_count), crates/oe-tsa-core/src/lib.rs (test_timestamp_refuses_when_time_is_not_traceable)";

pub const TSU_PROFILE_TITLE: &'static str = "Profil du certificat de l'unité d'horodatage";

pub const TSU_PROFILE_MECHANISM: &'static str = "oe_conformance::check_tsu_certificate (id-kp-timeStamping seul et critique, CA:FALSE, keyUsage restreint, durée de vie plafonnée) est appliquée à l'émission (Profile::check) ET re-contrôlée au démarrage de tsa-server (oe_tsa_core::Authority::new) — un certificat chargé depuis le disque peut venir d'ailleurs.";

pub const TSU_PROFILE_TEST: &'static str = "crates/oe-conformance/tests/tsu_certificate.rs (accepts_a_certificate_issued_with_the_tsa_signer_profile, rejects_a_certificate_issued_with_the_ocsp_responder_profile)";

pub const TSU_KEY_TITLE: &'static str = "Génération de la clé TSU dans le module cryptographique";

pub const TSU_KEY_MECHANISM: &'static str = "La bi-clé est générée dans le token PKCS#11 (oe_hsm::Pkcs11Token::generate_rsa_key) et ne manipule qu'un SigningToken ; la clé privée n'est jamais extraite.";

pub const TSU_KEY_TEST: &'static str = "crates/oe-hsm/tests/pkcs11_integration.rs";

pub const TOKEN_TITLE: &'static str = "Profil du jeton d'horodatage";

pub const TOKEN_MECHANISM: &'static str = "TSTInfo complet (politique, imprint, série, genTime UTC, précision), assemblé en CMS SignedData signé par le token ; le jeton est relu avant d'être consigné : oe_rfc3161_asn1, oe_tsa_core::Authority::timestamp.";

pub const TOKEN_TEST: &'static str = "crates/oe-tsa-core/tests/end_to_end.rs (produces_tokens_accepted_by_openssl_for_every_granted_case_in_the_corpus)";

pub const PROTOCOL_TITLE: &'static str = "Protocole d'horodatage RFC 3161 sur HTTP";

pub const PROTOCOL_MECHANISM: &'static str = "Endpoint /tsa acceptant application/timestamp-query, refus protocolaires rendus en TimeStampResp valides : oe_httpapi, bin/tsa-server.";

pub const PROTOCOL_TEST: &'static str = "crates/oe-httpapi/tests/end_to_end.rs (serves_a_verifiable_token_over_http, vérification croisée openssl ts -verify)";

pub const KEY_LENGTH_TITLE: &'static str = "Longueur de clé suffisante pour la durée de vie visée";

pub const KEY_LENGTH_MECHANISM: &'static str = "oe-config et bin/ca-server/src/config.rs imposent OPENEIDAS_KEY_BITS >= 3072 à la configuration (clé des autorités elles-mêmes) ; oe_raflow::parse_and_verify_csr applique la même exigence à la clé publique portée par une CSR soumise à l'enrôlement.";

pub const KEY_LENGTH_TEST: &'static str = "crates/oe-config/src/lib.rs (load_fails_on_undersized_key_bits), crates/oe-raflow/tests/flow.rs (submit_rejects_a_csr_with_an_undersized_key)";

pub const SIGNATURE_TITLE: &'static str = "Algorithme de signature et fonction de hachage admis";

pub const SIGNATURE_MECHANISM: &'static str = "oe_conformance::check_signature_algorithm vérifie explicitement l'OID de signature d'un certificat contre la liste des suites admises (SHA-256/384/512 avec RSA), appelée via Profile::check à l'émission et à la re-vérification.";

pub const SIGNATURE_TEST: &'static str = "crates/oe-conformance/src/lib.rs (check_signature_algorithm_accepts_sha256_with_rsa, check_signature_algorithm_rejects_sha1)";

pub const DIGEST_TITLE: &'static str = "Fonction de hachage admise pour l'empreinte soumise";

pub const DIGEST_MECHANISM: &'static str = "oe_hsm::DigestAlg restreint la signature à SHA-256/384/512 ; une empreinte SHA-1 est refusée avec le failureInfo RFC 3161 badAlg : oe_tsa_core::Authority::timestamp.";

pub const DIGEST_TEST: &'static str = "crates/oe-tsa-core/src/lib.rs (test_timestamp_rejects_sha1)";

pub const REVOCATION_LIST_TITLE: &'static str = "Liste de révocation signée, numérotée et datée";

pub const REVOCATION_LIST_MECHANISM: &'static str = "CRL régénérée avec cRLNumber, thisUpdate/nextUpdate et signature, republiée même vide : oe_ca_core::Issuer::publish_crl. La signature et le motif de révocation sont revérifiés par openssl.";

pub const REVOCATION_LIST_TEST: &'static str = "crates/oe-ca-core/tests/issuance.rs (revoke_then_publish_crl_lists_the_certificate, openssl_accepts_the_chain_and_honors_revocation)";

pub const RESPONDER_TITLE: &'static str = "Profil du certificat de signature du répondeur OCSP";

pub const RESPONDER_MECHANISM: &'static str = "Profil ocsp_responder (id-pkix-ocsp-nocheck, pas de CDP/AIA, durée de vie courte) appliqué à l'émission, re-contrôlé après signature par oe_conformance::check_ocsp_responder_certificate (Profile::check).";

pub const RESPONDER_TEST: &'static str = "crates/oe-ca-core/tests/issuance.rs (revoke_then_publish_crl_lists_the_certificate, qui émet avec ce profil), crates/oe-conformance/tests/tsu_certificate.rs (rejects_a_certificate_issued_with_the_ocsp_responder_profile, qui prouve que check_ocsp_responder_certificate distingue bien ce profil de tsa_signer)";

pub const ASSESSMENT_TITLE: &'static str = "Évaluation par un organisme d'évaluation de la conformité accrédité";

pub const ASSESSMENT_MECHANISM: &'static str = "Le dépôt est intégralement public ; cette matrice fournit le point d'entrée d'un audit, indépendamment du langage d'implémentation.";

pub const ASSESSMENT_TARGET: &'static str = "Audit par un organisme accrédité (LSTI, Apave), puis inscription à la liste de confiance nationale.";

pub const POLICY_TITLE: &'static str = "Politique de service et déclaration des pratiques publiées";

pub const POLICY_MECHANISM: &'static str = "docs/CPS.md porte un brouillon structuré, déjà indépendant du langage d'implémentation du service.";

pub const POLICY_TARGET: &'static str = "Adoption formelle de docs/CPS.md par l'association (organisationnel, non affecté par le portage Rust).";

/// An entry of the matrix, field by field.
pub open spec fn entry_of(
    standard: &'static str,
    clause: &'static str,
    title: &'static str,
    status: Status,
    mechanism: &'static str,
    test: &'static str,
    target: &'static str,
) -> Entry {
    Entry { requirement: Requirement { standard, clause, title }, status, mechanism, test, target }
}

fn entry(
    standard: &'static str,
    clause: &'static str,
    title: &'static str,
    status: Status,
    mechanism: &'static str,
    test: &'static str,
    target: &'static str,
) -> (r: Entry)
    ensures
        r == entry_of(standard, clause, title, status, mechanism, test, target),
{
    Entry { requirement: Requirement { standard, clause, title }, status, mechanism, test, target }
}

/// The entries of the matrix.
pub open spec fn system_entries() -> Seq<Entry> {
    seq![
        entry_of(
            EN_319_401,
            "§7.4",
            KEYS_TITLE,
            Status::Covered,
            KEYS_MECHANISM,
            KEYS_TEST,
            "",
        ),
        entry_of(
            EN_319_401,
            "§7.10",
            LOGGING_TITLE,
            Status::Covered,
            LOGGING_MECHANISM,
            LOGGING_TEST,
            "",
        ),
        entry_of(
            EN_319_401,
            "§7.9",
            INTEGRITY_TITLE,
            Status::Covered,
            INTEGRITY_MECHANISM,
            INTEGRITY_TEST,
            "",
        ),
        entry_of(
            EN_319_401,
            "§7.11",
            CONTINUITY_TITLE,
            Status::Covered,
            CONTINUITY_MECHANISM,
            CONTINUITY_TEST,
            "",
        ),
        entry_of(
            EN_319_401,
            "§7.12",
            TERMINATION_TITLE,
            Status::OutOfScope,
            TERMINATION_MECHANISM,
            "",
            TERMINATION_TARGET,
        ),
        entry_of(
            EN_319_411_1,
            "§6.6.1",
            CA_PROFILE_TITLE,
            Status::Covered,
            CA_PROFILE_MECHANISM,
            CA_PROFILE_TEST,
            "",
        ),
        entry_of(
            EN_319_411_1,
            "§6.2.1",
            DECISION_TITLE,
            Status::Covered,
            DECISION_MECHANISM,
            DECISION_TEST,
            "",
        ),
        entry_of(
            EN_319_411_1,
            "§6.3.1",
            AUTHENTICATION_TITLE,
            Status::Covered,
            AUTHENTICATION_MECHANISM,
            AUTHENTICATION_TEST,
            "",
        ),
        entry_of(
            EN_319_411_1,
            "§6.3.2",
            LIFETIME_TITLE,
            Status::Covered,
            LIFETIME_MECHANISM,
            LIFETIME_TEST,
            "",
        ),
        entry_of(
            EN_319_411_1,
            "§6.3.9",
            REASON_TITLE,
            Status::Covered,
            REASON_MECHANISM,
            REASON_TEST,
            "",
        ),
        entry_of(
            EN_319_411_1,
            "§6.3.10",
            PUBLICATION_TITLE,
            Status::Covered,
            PUBLICATION_MECHANISM,
            PUBLICATION_TEST,
            "",
        ),
        entry_of(
            RFC_6960,
            "§2.1",
            ONLINE_STATUS_TITLE,
            Status::Covered,
            ONLINE_STATUS_MECHANISM,
            ONLINE_STATUS_TEST,
            "",
        ),
        entry_of(
            EN_319_411_1,
            "§6.5.1",
            CEREMONY_TITLE,
            Status::Gap,
            CEREMONY_MECHANISM,
            CEREMONY_TEST,
            CEREMONY_TARGET,
        ),
        entry_of(
            EN_319_412_1,
            "§4",
            STRUCTURES_TITLE,
            Status::Covered,
            STRUCTURES_MECHANISM,
            STRUCTURES_TEST,
            "",
        ),
        entry_of(
            EN_319_412_1,
            "§4.1",
            SERIAL_TITLE,
            Status::Covered,
            SERIAL_MECHANISM,
            SERIAL_TEST,
            "",
        ),
        entry_of(
            RFC_5280,
            "§4.2.1.1-4.2.1.2",
            KEY_IDENTIFIERS_TITLE,
            Status::Covered,
            KEY_IDENTIFIERS_MECHANISM,
            KEY_IDENTIFIERS_TEST,
            "",
        ),
        entry_of(
            EN_319_421,
            "§7.6",
            TIME_TITLE,
            Status::Covered,
            TIME_MECHANISM,
            TIME_TEST,
            "",
        ),
        entry_of(
            EN_319_421,
            "§7.7.2",
            TSU_PROFILE_TITLE,
            Status::Covered,
            TSU_PROFILE_MECHANISM,
            TSU_PROFILE_TEST,
            "",
        ),
        entry_of(
            EN_319_421,
            "§7.7.1",
            TSU_KEY_TITLE,
            Status::Covered,
            TSU_KEY_MECHANISM,
            TSU_KEY_TEST,
            "",
        ),
        entry_of(
            EN_319_422,
            "§5",
            TOKEN_TITLE,
            Status::Covered,
            TOKEN_MECHANISM,
            TOKEN_TEST,
            "",
        ),
        entry_of(
            EN_319_422,
            "§7",
            PROTOCOL_TITLE,
            Status::Covered,
            PROTOCOL_MECHANISM,
            PROTOCOL_TEST,
            "",
        ),
        entry_of(
            TS_119_312,
            "§6.2",
            KEY_LENGTH_TITLE,
            Status::Covered,
            KEY_LENGTH_MECHANISM,
            KEY_LENGTH_TEST,
            "",
        ),
        entry_of(
            TS_119_312,
            "§6.1",
            SIGNATURE_TITLE,
            Status::Covered,
            SIGNATURE_MECHANISM,
            SIGNATURE_TEST,
            "",
        ),
        entry_of(
            TS_119_312,
            "§5.1",
            DIGEST_TITLE,
            Status::Covered,
            DIGEST_MECHANISM,
            DIGEST_TEST,
            "",
        ),
        entry_of(
            RFC_5280,
            "§5.1",
            REVOCATION_LIST_TITLE,
            Status::Covered,
            REVOCATION_LIST_MECHANISM,
            REVOCATION_LIST_TEST,
            "",
        ),
        entry_of(
            RFC_6960,
            "§4.2.2.2",
            RESPONDER_TITLE,
            Status::Covered,
            RESPONDER_MECHANISM,
            RESPONDER_TEST,
            "",
        ),
        entry_of(
            EN_319_403_1,
            "§7",
            ASSESSMENT_TITLE,
            Status::OutOfScope,
            ASSESSMENT_MECHANISM,
            "",
            ASSESSMENT_TARGET,
        ),
        entry_of(
            EN_319_401,
            "§6.1",
            POLICY_TITLE,
            Status::Gap,
            POLICY_MECHANISM,
            "",
            POLICY_TARGET,
        ),
    ]
}

/// The conformance matrix that applies to the system.
pub fn system_matrix() -> (r: Matrix)
    ensures
        r.0@ == system_entries(),
{
    Matrix(
        vec![
            entry(
                EN_319_401,
                "§7.4",
                KEYS_TITLE,
                Status::Covered,
                KEYS_MECHANISM,
                KEYS_TEST,
                "",
            ),
            entry(
                EN_319_401,
                "§7.10",
                LOGGING_TITLE,
                Status::Covered,
                LOGGING_MECHANISM,
                LOGGING_TEST,
                "",
            ),
            entry(
                EN_319_401,
                "§7.9",
                INTEGRITY_TITLE,
                Status::Covered,
                INTEGRITY_MECHANISM,
                INTEGRITY_TEST,
                "",
            ),
            entry(
                EN_319_401,
                "§7.11",
                CONTINUITY_TITLE,
                Status::Covered,
                CONTINUITY_MECHANISM,
                CONTINUITY_TEST,
                "",
            ),
            entry(
                EN_319_401,
                "§7.12",
                TERMINATION_TITLE,
                Status::OutOfScope,
                TERMINATION_MECHANISM,
                "",
                TERMINATION_TARGET,
            ),
            entry(
                EN_319_411_1,
                "§6.6.1",
                CA_PROFILE_TITLE,
                Status::Covered,
                CA_PROFILE_MECHANISM,
                CA_PROFILE_TEST,
                "",
            ),
            entry(
                EN_319_411_1,
                "§6.2.1",
                DECISION_TITLE,
                Status::Covered,
                DECISION_MECHANISM,
                DECISION_TEST,
                "",
            ),
            entry(
                EN_319_411_1,
                "§6.3.1",
                AUTHENTICATION_TITLE,
                Status::Covered,
                AUTHENTICATION_MECHANISM,
                AUTHENTICATION_TEST,
                "",
            ),
            entry(
                EN_319_411_1,
                "§6.3.2",
                LIFETIME_TITLE,
                Status::Covered,
                LIFETIME_MECHANISM,
                LIFETIME_TEST,
                "",
            ),
            entry(
                EN_319_411_1,
                "§6.3.9",
                REASON_TITLE,
                Status::Covered,
                REASON_MECHANISM,
                REASON_TEST,
                "",
            ),
            entry(
                EN_319_411_1,
                "§6.3.10",
                PUBLICATION_TITLE,
                Status::Covered,
                PUBLICATION_MECHANISM,
                PUBLICATION_TEST,
                "",
            ),
            entry(
                RFC_6960,
                "§2.1",
                ONLINE_STATUS_TITLE,
                Status::Covered,
                ONLINE_STATUS_MECHANISM,
                ONLINE_STATUS_TEST,
                "",
            ),
            entry(
                EN_319_411_1,
                "§6.5.1",
                CEREMONY_TITLE,
                Status::Gap,
                CEREMONY_MECHANISM,
                CEREMONY_TEST,
                CEREMONY_TARGET,
            ),
            entry(
                EN_319_412_1,
                "§4",
                STRUCTURES_TITLE,
                Status::Covered,
                STRUCTURES_MECHANISM,
                STRUCTURES_TEST,
                "",
            ),
            entry(
                EN_319_412_1,
                "§4.1",
                SERIAL_TITLE,
                Status::Covered,
                SERIAL_MECHANISM,
                SERIAL_TEST,
                "",
            ),
            entry(
                RFC_5280,
                "§4.2.1.1-4.2.1.2",
                KEY_IDENTIFIERS_TITLE,
                Status::Covered,
                KEY_IDENTIFIERS_MECHANISM,
                KEY_IDENTIFIERS_TEST,
                "",
            ),
            entry(
                EN_319_421,
                "§7.6",
                TIME_TITLE,
                Status::Covered,
                TIME_MECHANISM,
                TIME_TEST,
                "",
            ),
            entry(
                EN_319_421,
                "§7.7.2",
                TSU_PROFILE_TITLE,
                Status::Covered,
                TSU_PROFILE_MECHANISM,
                TSU_PROFILE_TEST,
                "",
            ),
            entry(
                EN_319_421,
                "§7.7.1",
                TSU_KEY_TITLE,
                Status::Covered,
                TSU_KEY_MECHANISM,
                TSU_KEY_TEST,
                "",
            ),
            entry(
                EN_319_422,
                "§5",
                TOKEN_TITLE,
                Status::Covered,
                TOKEN_MECHANISM,
                TOKEN_TEST,
                "",
            ),
            entry(
                EN_319_422,
                "§7",
                PROTOCOL_TITLE,
                Status::Covered,
                PROTOCOL_MECHANISM,
                PROTOCOL_TEST,
                "",
            ),
            entry(
                TS_119_312,
                "§6.2",
                KEY_LENGTH_TITLE,
                Status::Covered,
                KEY_LENGTH_MECHANISM,
                KEY_LENGTH_TEST,
                "",
            ),
            entry(
                TS_119_312,
                "§6.1",
                SIGNATURE_TITLE,
                Status::Covered,
                SIGNATURE_MECHANISM,
                SIGNATURE_TEST,
                "",
            ),
            entry(
                TS_119_312,
                "§5.1",
                DIGEST_TITLE,
                Status::Covered,
                DIGEST_MECHANISM,
                DIGEST_TEST,
                "",
            ),
            entry(
                RFC_5280,
                "§5.1",
                REVOCATION_LIST_TITLE,
                Status::Covered,
                REVOCATION_LIST_MECHANISM,
                REVOCATION_LIST_TEST,
                "",
            ),
            entry(
                RFC_6960,
                "§4.2.2.2",
                RESPONDER_TITLE,
                Status::Covered,
                RESPONDER_MECHANISM,
                RESPONDER_TEST,
                "",
            ),
            entry(
                EN_319_403_1,
                "§7",
                ASSESSMENT_TITLE,
                Status::OutOfScope,
                ASSESSMENT_MECHANISM,
                "",
                ASSESSMENT_TARGET,
            ),
            entry(
                EN_319_401,
                "§6.1",
                POLICY_TITLE,
                Status::Gap,
                POLICY_MECHANISM,
                "",
                POLICY_TARGET,
            ),
        ],
    )
}

} // verus!
