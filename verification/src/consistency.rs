//! The conformance matrix of the system is consistent: no clause is cited twice,
//! and every entry names what its status calls for.
use vstd::prelude::*;

use crate::conformance::{complete, consistent, count, counts_add_up, Entry, Status};
use crate::matrix::system_entries;

verus! {

/// Where a citation stands in the matrix, by characters that tell it from the
/// others: those of the standard first, then those of the clause.
spec fn place(c: Seq<char>) -> int {
    if c[5] == '9' {
        if c[10] == '2' {
            11
        } else {
            25
        }
    } else if c[5] == '2' {
        if c[10] == '4' {
            15
        } else {
            24
        }
    } else if c[5] == 'T' {
        if c[17] == '5' {
            23
        } else if c[19] == '2' {
            21
        } else {
            22
        }
    } else if c[13] == '0' {
        if c[14] == '3' {
            26
        } else if c[17] == '6' {
            27
        } else if c[19] == '4' {
            0
        } else if c[19] == '9' {
            2
        } else if c[20] == '0' {
            1
        } else if c[20] == '1' {
            3
        } else {
            4
        }
    } else if c[13] == '1' && c[14] == '1' {
        if c[21] == '6' {
            5
        } else if c[21] == '2' {
            6
        } else if c[21] == '5' {
            12
        } else if c.len() == 25 {
            10
        } else if c[23] == '1' {
            7
        } else if c[23] == '2' {
            8
        } else {
            9
        }
    } else if c[13] == '1' {
        if c.len() == 20 {
            13
        } else {
            14
        }
    } else if c[14] == '1' {
        if c[19] == '6' {
            16
        } else if c[21] == '2' {
            17
        } else {
            18
        }
    } else if c[17] == '5' {
        19
    } else {
        20
    }
}

/// The clause is given, and its citation stands at a place.
spec fn cited_at(standard: &str, clause: &str, i: int) -> bool {
    clause@.len() > 0 && place(standard@ + " "@ + clause@) == i
}

proof fn provider_clauses_have_places()
    ensures
        cited_at(crate::matrix::EN_319_401, "§7.4", 0),
        cited_at(crate::matrix::EN_319_401, "§7.10", 1),
        cited_at(crate::matrix::EN_319_401, "§7.9", 2),
        cited_at(crate::matrix::EN_319_401, "§7.11", 3),
        cited_at(crate::matrix::EN_319_401, "§7.12", 4),
        cited_at(crate::matrix::EN_319_401, "§6.1", 27),
{
    reveal_strlit("ETSI EN 319 401");
    reveal_strlit(" ");
    reveal_strlit("§7.4");
    reveal_strlit("§7.10");
    reveal_strlit("§7.9");
    reveal_strlit("§7.11");
    reveal_strlit("§7.12");
    reveal_strlit("§6.1");
}

proof fn authority_clauses_have_places()
    ensures
        cited_at(crate::matrix::EN_319_411_1, "§6.6.1", 5),
        cited_at(crate::matrix::EN_319_411_1, "§6.2.1", 6),
        cited_at(crate::matrix::EN_319_411_1, "§6.3.1", 7),
        cited_at(crate::matrix::EN_319_411_1, "§6.3.2", 8),
        cited_at(crate::matrix::EN_319_411_1, "§6.3.9", 9),
        cited_at(crate::matrix::EN_319_411_1, "§6.3.10", 10),
        cited_at(crate::matrix::EN_319_411_1, "§6.5.1", 12),
{
    reveal_strlit("ETSI EN 319 411-1");
    reveal_strlit(" ");
    reveal_strlit("§6.6.1");
    reveal_strlit("§6.2.1");
    reveal_strlit("§6.3.1");
    reveal_strlit("§6.3.2");
    reveal_strlit("§6.3.9");
    reveal_strlit("§6.3.10");
    reveal_strlit("§6.5.1");
}

proof fn responder_clauses_have_places()
    ensures
        cited_at(crate::matrix::RFC_6960, "§2.1", 11),
        cited_at(crate::matrix::RFC_6960, "§4.2.2.2", 25),
{
    reveal_strlit("RFC 6960");
    reveal_strlit(" ");
    reveal_strlit("§2.1");
    reveal_strlit("§4.2.2.2");
}

proof fn certificate_clauses_have_places()
    ensures
        cited_at(crate::matrix::EN_319_412_1, "§4", 13),
        cited_at(crate::matrix::EN_319_412_1, "§4.1", 14),
{
    reveal_strlit("ETSI EN 319 412-1");
    reveal_strlit(" ");
    reveal_strlit("§4");
    reveal_strlit("§4.1");
}

proof fn extension_clauses_have_places()
    ensures
        cited_at(crate::matrix::RFC_5280, "§4.2.1.1-4.2.1.2", 15),
        cited_at(crate::matrix::RFC_5280, "§5.1", 24),
{
    reveal_strlit("RFC 5280");
    reveal_strlit(" ");
    reveal_strlit("§4.2.1.1-4.2.1.2");
    reveal_strlit("§5.1");
}

proof fn time_stamping_clauses_have_places()
    ensures
        cited_at(crate::matrix::EN_319_421, "§7.6", 16),
        cited_at(crate::matrix::EN_319_421, "§7.7.2", 17),
        cited_at(crate::matrix::EN_319_421, "§7.7.1", 18),
{
    reveal_strlit("ETSI EN 319 421");
    reveal_strlit(" ");
    reveal_strlit("§7.6");
    reveal_strlit("§7.7.2");
    reveal_strlit("§7.7.1");
}

proof fn token_clauses_have_places()
    ensures
        cited_at(crate::matrix::EN_319_422, "§5", 19),
        cited_at(crate::matrix::EN_319_422, "§7", 20),
{
    reveal_strlit("ETSI EN 319 422");
    reveal_strlit(" ");
    reveal_strlit("§5");
    reveal_strlit("§7");
}

proof fn algorithm_clauses_have_places()
    ensures
        cited_at(crate::matrix::TS_119_312, "§6.2", 21),
        cited_at(crate::matrix::TS_119_312, "§6.1", 22),
        cited_at(crate::matrix::TS_119_312, "§5.1", 23),
{
    reveal_strlit("ETSI TS 119 312");
    reveal_strlit(" ");
    reveal_strlit("§6.2");
    reveal_strlit("§6.1");
    reveal_strlit("§5.1");
}

proof fn assessment_clauses_have_places()
    ensures
        cited_at(crate::matrix::EN_319_403_1, "§7", 26),
{
    reveal_strlit("ETSI EN 319 403-1");
    reveal_strlit(" ");
    reveal_strlit("§7");
}

proof fn keys_is_complete()
    ensures
        crate::matrix::KEYS_MECHANISM@.len() > 0,
        crate::matrix::KEYS_TEST@.len() > 0,
{
    reveal_strlit("Toutes les clés vivent dans un token PKCS#11 et n'en sortent jamais : oe-hsm::Pkcs11Token, validé contre un vrai token SoftHSM2 (crates/oe-hsm/tests/pkcs11_integration.rs).");
    reveal_strlit("crates/oe-hsm/tests/pkcs11_integration.rs");
}

proof fn logging_is_complete()
    ensures
        crate::matrix::LOGGING_MECHANISM@.len() > 0,
        crate::matrix::LOGGING_TEST@.len() > 0,
{
    reveal_strlit("Journal JSON Lines chaîné par SHA-256 (oe-audit) ; durée de conservation contrôlée à la configuration par oe_conformance::check_audit_retention, branché sur bin/ca-server::Config::load.");
    reveal_strlit("crates/oe-audit/src/lib.rs (deux_ecrivains_partagent_la_meme_chaine), crates/oe-conformance/src/lib.rs (check_audit_retention_accepts_the_minimum, check_audit_retention_rejects_unconfigured_and_short_durations)");
}

proof fn integrity_is_complete()
    ensures
        crate::matrix::INTEGRITY_MECHANISM@.len() > 0,
        crate::matrix::INTEGRITY_TEST@.len() > 0,
{
    reveal_strlit("Chaînage par hachage vérifié intégralement à l'ouverture ; verrou de fichier partagé entre plusieurs écrivains d'un même processus : oe-audit::Log.");
    reveal_strlit("crates/oe-audit/src/lib.rs (deux_ecrivains_partagent_la_meme_chaine, verify_detects_modified_record, verify_detects_truncated_and_rewritten_tail)");
}

proof fn continuity_is_complete()
    ensures
        crate::matrix::CONTINUITY_MECHANISM@.len() > 0,
        crate::matrix::CONTINUITY_TEST@.len() > 0,
{
    reveal_strlit("Contreseing du journal par une TSA tierce (oe-crosstsa) et réplication WebDAV hors site (oe-replicate), validés contre un vrai serveur.");
    reveal_strlit("crates/oe-crosstsa/tests/against_local_server.rs (seals_a_digest_against_a_real_rfc3161_server), crates/oe-replicate/tests/against_local_server.rs (replicates_content_via_webdav_put)");
}

proof fn termination_is_complete()
    ensures
        crate::matrix::TERMINATION_TARGET@.len() > 0,
{
    reveal_strlit("Engagement juridique de l'association, dépôt auprès de l'organe de contrôle, séquestre des journaux.");
}

proof fn ca_profile_is_complete()
    ensures
        crate::matrix::CA_PROFILE_MECHANISM@.len() > 0,
        crate::matrix::CA_PROFILE_TEST@.len() > 0,
{
    reveal_strlit("Cérémonie produisant une racine et une CA émettrice au profil contrôlé (CA:TRUE critique, keyCertSign+cRLSign, SKI/AKI) : oe_ca_core::ceremony::run_ceremony, chaîne revérifiée par openssl.");
    reveal_strlit("crates/oe-ca-core/tests/issuance.rs (ceremony_is_idempotent, ceremony_rejects_mismatched_signer_on_replay, openssl_accepts_the_chain_and_honors_revocation)");
}

proof fn decision_is_complete()
    ensures
        crate::matrix::DECISION_MECHANISM@.len() > 0,
        crate::matrix::DECISION_TEST@.len() > 0,
{
    reveal_strlit("Aucune transition vers Approved n'existe sans identité d'opérateur : oe_raflow::Decider::approve/reject. L'identité est consignée en base et au journal d'audit.");
    reveal_strlit("crates/oe-raflow/tests/flow.rs (decide_without_operator_identity_is_refused, approve_then_resubmit_issues_a_certificate_signed_by_the_issuing_key)");
}

proof fn authentication_is_complete()
    ensures
        crate::matrix::AUTHENTICATION_MECHANISM@.len() > 0,
        crate::matrix::AUTHENTICATION_TEST@.len() > 0,
{
    reveal_strlit("HMAC-SHA256 sur la CSR DER, vérifié en temps constant, et vérification de l'auto-signature de la CSR (preuve de possession) : oe_raflow::Flow::submit.");
    reveal_strlit("crates/oe-raflow/tests/flow.rs (submit_without_valid_hmac_is_unauthenticated, submit_opens_a_pending_request_idempotently)");
}

proof fn lifetime_is_complete()
    ensures
        crate::matrix::LIFETIME_MECHANISM@.len() > 0,
        crate::matrix::LIFETIME_TEST@.len() > 0,
{
    reveal_strlit("oe_conformance::check_certificate_lifetime relit la validité du certificat réellement signé et la compare à un plafond indépendant du profil (MAX_END_ENTITY_LIFETIME/MAX_OCSP_LIFETIME) ; appelé via le champ Profile::check de oe_ca_core::Issuer::issue, comme profile.Check (Go).");
    reveal_strlit("crates/oe-conformance/src/lib.rs (check_certificate_lifetime_accepts_within_the_ceiling, check_certificate_lifetime_rejects_beyond_the_ceiling), crates/oe-conformance/tests/tsu_certificate.rs");
}

proof fn reason_is_complete()
    ensures
        crate::matrix::REASON_MECHANISM@.len() > 0,
        crate::matrix::REASON_TEST@.len() > 0,
{
    reveal_strlit("Motif RFC 5280 obligatoire à la révocation (Issuer::revoke), persisté et repris dans chaque entrée de CRL avec son extension cRLReason.");
    reveal_strlit("crates/oe-ca-core/tests/issuance.rs (revoke_is_idempotent_and_keeps_first_reason, revoke_then_publish_crl_lists_the_certificate)");
}

proof fn publication_is_complete()
    ensures
        crate::matrix::PUBLICATION_MECHANISM@.len() > 0,
        crate::matrix::PUBLICATION_TEST@.len() > 0,
{
    reveal_strlit("oe_ca_core::Issuer::publish_crl produit une CRL signée, republiable même vide ; bin/ca-server::http::Server republie à intervalle régulier et dégrade /healthz (503) dès que la CRL servie est périmée, plutôt que de se déclarer sain sans pouvoir dire ce qui est révoqué.");
    reveal_strlit("crates/oe-ca-core/tests/issuance.rs (revoke_then_publish_crl_lists_the_certificate), bin/ca-server/tests/crl_publication.rs (crl_is_republished_periodically, healthz_degrades_when_the_published_crl_is_stale)");
}

proof fn online_status_is_complete()
    ensures
        crate::matrix::ONLINE_STATUS_MECHANISM@.len() > 0,
        crate::matrix::ONLINE_STATUS_TEST@.len() > 0,
{
    reveal_strlit("Répondeur OCSP RFC 6960 s'appuyant sur la CRL publiée par la CA : oe_ocsp_core::Responder.");
    reveal_strlit("crates/oe-ocsp-core/tests/against_real_crl.rs (reports_good_status_for_a_non_revoked_certificate, reports_revoked_status_for_a_revoked_certificate)");
}

proof fn ceremony_is_complete()
    ensures
        crate::matrix::CEREMONY_MECHANISM@.len() > 0,
        crate::matrix::CEREMONY_TARGET@.len() > 0,
{
    reveal_strlit("Cérémonie scriptée et idempotente (`ca-server ceremony`), produisant un procès-verbal consigné au journal d'audit (empreintes de clés, opérateur, date) : oe_ca_core::ceremony.");
    reveal_strlit("Cérémonie en double contrôle, sous témoin indépendant, sur HSM certifié, avec procès-verbal contresigné — écart organisationnel, pas seulement logiciel.");
}

proof fn structures_is_complete()
    ensures
        crate::matrix::STRUCTURES_MECHANISM@.len() > 0,
        crate::matrix::STRUCTURES_TEST@.len() > 0,
{
    reveal_strlit("Profils définis en structures Rust compilées, pas en configuration interprétée : oe_ca_core::profile. Contrôle de criticité (basicConstraints, keyUsage, EKU) posé à la main, vérifié par openssl.");
    reveal_strlit("crates/oe-ca-core/tests/issuance.rs (openssl_accepts_the_chain_and_honors_revocation)");
}

proof fn serial_is_complete()
    ensures
        crate::matrix::SERIAL_MECHANISM@.len() > 0,
        crate::matrix::SERIAL_TEST@.len() > 0,
{
    reveal_strlit("Numéro de série de 128 bits tiré sur rand::thread_rng et réservé de façon atomique (contrainte d'unicité en base) : oe_ca_core::Issuer::reserve_serial, oe_castore::Store::reserve_serial.");
    reveal_strlit("crates/oe-castore/src/lib.rs (reserve_serial_twice_conflicts), crates/oe-castore/tests/postgres.rs (reserve_serial_twice_conflicts)");
}

proof fn key_identifiers_is_complete()
    ensures
        crate::matrix::KEY_IDENTIFIERS_MECHANISM@.len() > 0,
        crate::matrix::KEY_IDENTIFIERS_TEST@.len() > 0,
{
    reveal_strlit("subjectKeyIdentifier (SHA-1 de la clé, méthode 1) et authorityKeyIdentifier (pointant vers le SKI de l'émetteur) posés sans condition à l'émission et dans la cérémonie : oe_ca_core::extensions, oe_ca_core::signing::subject_key_id.");
    reveal_strlit("crates/oe-ca-core/tests/issuance.rs (issue_produces_a_certificate_signed_by_the_issuing_key, assert_ski_and_aki_present_and_linked)");
}

proof fn time_is_complete()
    ensures
        crate::matrix::TIME_MECHANISM@.len() > 0,
        crate::matrix::TIME_TEST@.len() > 0,
{
    reveal_strlit("Surveillance NTP multi-sources avec quorum, seuil de dérive (MaxOffset) et péremption (MaxAge) ; la politique enforce fait refuser chaque demande avec timeNotAvailable : oe_timesource::Monitor.");
    reveal_strlit("crates/oe-timesource/src/lib.rs (now_refuses_untraceable_time_in_enforce_mode, now_allows_untraceable_time_in_monitor_mode, new_rejects_quorum_larger_than_source_count), crates/oe-tsa-core/src/lib.rs (test_timestamp_refuses_when_time_is_not_traceable)");
}

proof fn tsu_profile_is_complete()
    ensures
        crate::matrix::TSU_PROFILE_MECHANISM@.len() > 0,
        crate::matrix::TSU_PROFILE_TEST@.len() > 0,
{
    reveal_strlit("oe_conformance::check_tsu_certificate (id-kp-timeStamping seul et critique, CA:FALSE, keyUsage restreint, durée de vie plafonnée) est appliquée à l'émission (Profile::check) ET re-contrôlée au démarrage de tsa-server (oe_tsa_core::Authority::new) — un certificat chargé depuis le disque peut venir d'ailleurs.");
    reveal_strlit("crates/oe-conformance/tests/tsu_certificate.rs (accepts_a_certificate_issued_with_the_tsa_signer_profile, rejects_a_certificate_issued_with_the_ocsp_responder_profile)");
}

proof fn tsu_key_is_complete()
    ensures
        crate::matrix::TSU_KEY_MECHANISM@.len() > 0,
        crate::matrix::TSU_KEY_TEST@.len() > 0,
{
    reveal_strlit("La bi-clé est générée dans le token PKCS#11 (oe_hsm::Pkcs11Token::generate_rsa_key) et ne manipule qu'un SigningToken ; la clé privée n'est jamais extraite.");
    reveal_strlit("crates/oe-hsm/tests/pkcs11_integration.rs");
}

proof fn token_is_complete()
    ensures
        crate::matrix::TOKEN_MECHANISM@.len() > 0,
        crate::matrix::TOKEN_TEST@.len() > 0,
{
    reveal_strlit("TSTInfo complet (politique, imprint, série, genTime UTC, précision), assemblé en CMS SignedData signé par le token ; le jeton est relu avant d'être consigné : oe_rfc3161_asn1, oe_tsa_core::Authority::timestamp.");
    reveal_strlit("crates/oe-tsa-core/tests/end_to_end.rs (produces_tokens_accepted_by_openssl_for_every_granted_case_in_the_corpus)");
}

proof fn protocol_is_complete()
    ensures
        crate::matrix::PROTOCOL_MECHANISM@.len() > 0,
        crate::matrix::PROTOCOL_TEST@.len() > 0,
{
    reveal_strlit("Endpoint /tsa acceptant application/timestamp-query, refus protocolaires rendus en TimeStampResp valides : oe_httpapi, bin/tsa-server.");
    reveal_strlit("crates/oe-httpapi/tests/end_to_end.rs (serves_a_verifiable_token_over_http, vérification croisée openssl ts -verify)");
}

proof fn key_length_is_complete()
    ensures
        crate::matrix::KEY_LENGTH_MECHANISM@.len() > 0,
        crate::matrix::KEY_LENGTH_TEST@.len() > 0,
{
    reveal_strlit("oe-config et bin/ca-server/src/config.rs imposent OPENEIDAS_KEY_BITS >= 3072 à la configuration (clé des autorités elles-mêmes) ; oe_raflow::parse_and_verify_csr applique la même exigence à la clé publique portée par une CSR soumise à l'enrôlement.");
    reveal_strlit("crates/oe-config/src/lib.rs (load_fails_on_undersized_key_bits), crates/oe-raflow/tests/flow.rs (submit_rejects_a_csr_with_an_undersized_key)");
}

proof fn signature_is_complete()
    ensures
        crate::matrix::SIGNATURE_MECHANISM@.len() > 0,
        crate::matrix::SIGNATURE_TEST@.len() > 0,
{
    reveal_strlit("oe_conformance::check_signature_algorithm vérifie explicitement l'OID de signature d'un certificat contre la liste des suites admises (SHA-256/384/512 avec RSA), appelée via Profile::check à l'émission et à la re-vérification.");
    reveal_strlit("crates/oe-conformance/src/lib.rs (check_signature_algorithm_accepts_sha256_with_rsa, check_signature_algorithm_rejects_sha1)");
}

proof fn digest_is_complete()
    ensures
        crate::matrix::DIGEST_MECHANISM@.len() > 0,
        crate::matrix::DIGEST_TEST@.len() > 0,
{
    reveal_strlit("oe_hsm::DigestAlg restreint la signature à SHA-256/384/512 ; une empreinte SHA-1 est refusée avec le failureInfo RFC 3161 badAlg : oe_tsa_core::Authority::timestamp.");
    reveal_strlit("crates/oe-tsa-core/src/lib.rs (test_timestamp_rejects_sha1)");
}

proof fn revocation_list_is_complete()
    ensures
        crate::matrix::REVOCATION_LIST_MECHANISM@.len() > 0,
        crate::matrix::REVOCATION_LIST_TEST@.len() > 0,
{
    reveal_strlit("CRL régénérée avec cRLNumber, thisUpdate/nextUpdate et signature, republiée même vide : oe_ca_core::Issuer::publish_crl. La signature et le motif de révocation sont revérifiés par openssl.");
    reveal_strlit("crates/oe-ca-core/tests/issuance.rs (revoke_then_publish_crl_lists_the_certificate, openssl_accepts_the_chain_and_honors_revocation)");
}

proof fn responder_is_complete()
    ensures
        crate::matrix::RESPONDER_MECHANISM@.len() > 0,
        crate::matrix::RESPONDER_TEST@.len() > 0,
{
    reveal_strlit("Profil ocsp_responder (id-pkix-ocsp-nocheck, pas de CDP/AIA, durée de vie courte) appliqué à l'émission, re-contrôlé après signature par oe_conformance::check_ocsp_responder_certificate (Profile::check).");
    reveal_strlit("crates/oe-ca-core/tests/issuance.rs (revoke_then_publish_crl_lists_the_certificate, qui émet avec ce profil), crates/oe-conformance/tests/tsu_certificate.rs (rejects_a_certificate_issued_with_the_ocsp_responder_profile, qui prouve que check_ocsp_responder_certificate distingue bien ce profil de tsa_signer)");
}

proof fn assessment_is_complete()
    ensures
        crate::matrix::ASSESSMENT_TARGET@.len() > 0,
{
    reveal_strlit("Audit par un organisme accrédité (LSTI, Apave), puis inscription à la liste de confiance nationale.");
}

proof fn policy_is_complete()
    ensures
        crate::matrix::POLICY_MECHANISM@.len() > 0,
        crate::matrix::POLICY_TARGET@.len() > 0,
{
    reveal_strlit("docs/CPS.md porte un brouillon structuré, déjà indépendant du langage d'implémentation du service.");
    reveal_strlit("Adoption formelle de docs/CPS.md par l'association (organisationnel, non affecté par le portage Rust).");
}

proof fn entries_have_places()
    ensures
        system_entries().len() == 28,
        forall|i: int|
            0 <= i < 28 ==> place((#[trigger] system_entries()[i]).requirement.citation()) == i,
{
    provider_clauses_have_places();
    authority_clauses_have_places();
    responder_clauses_have_places();
    certificate_clauses_have_places();
    extension_clauses_have_places();
    time_stamping_clauses_have_places();
    token_clauses_have_places();
    algorithm_clauses_have_places();
    assessment_clauses_have_places();
    let all = system_entries();
    assert forall|i: int| 0 <= i < 28 implies place(
        (#[trigger] all[i]).requirement.citation(),
    ) == i by {
        assert(i == 0 || i == 1 || i == 2 || i == 3 || i == 4 || i == 5 || i == 6 || i == 7 || i == 8 || i == 9 || i == 10 || i == 11 || i == 12 || i == 13 || i == 14 || i == 15 || i == 16 || i == 17 || i == 18 || i == 19 || i == 20 || i == 21 || i == 22 || i == 23 || i == 24 || i == 25 || i == 26 || i == 27);
    }
}

proof fn entries_are_complete()
    ensures
        forall|i: int| 0 <= i < 28 ==> complete(#[trigger] system_entries()[i]),
{
    keys_is_complete();
    logging_is_complete();
    integrity_is_complete();
    continuity_is_complete();
    termination_is_complete();
    ca_profile_is_complete();
    decision_is_complete();
    authentication_is_complete();
    lifetime_is_complete();
    reason_is_complete();
    publication_is_complete();
    online_status_is_complete();
    ceremony_is_complete();
    structures_is_complete();
    serial_is_complete();
    key_identifiers_is_complete();
    time_is_complete();
    tsu_profile_is_complete();
    tsu_key_is_complete();
    token_is_complete();
    protocol_is_complete();
    key_length_is_complete();
    signature_is_complete();
    digest_is_complete();
    revocation_list_is_complete();
    responder_is_complete();
    assessment_is_complete();
    policy_is_complete();
    let all = system_entries();
    assert forall|i: int| 0 <= i < 28 implies complete(#[trigger] all[i]) by {
        assert(i == 0 || i == 1 || i == 2 || i == 3 || i == 4 || i == 5 || i == 6 || i == 7 || i == 8 || i == 9 || i == 10 || i == 11 || i == 12 || i == 13 || i == 14 || i == 15 || i == 16 || i == 17 || i == 18 || i == 19 || i == 20 || i == 21 || i == 22 || i == 23 || i == 24 || i == 25 || i == 26 || i == 27);
    }
}

/// The matrix of the system is consistent.
pub proof fn system_matrix_is_consistent()
    ensures
        consistent(system_entries()),
{
    entries_have_places();
    entries_are_complete();
    let all = system_entries();
    assert forall|i: int, j: int| 0 <= i < j < all.len() implies (
    #[trigger] all[i]).requirement.citation() != (#[trigger] all[j]).requirement.citation() by {
        assert(place(all[i].requirement.citation()) != place(all[j].requirement.citation()));
    }
}

/// Every entry of the matrix of the system has a title and names what is done,
/// a mechanism or a measure.
pub proof fn every_entry_has_title_and_measure()
    ensures
        forall|i: int|
            0 <= i < 28 ==> (#[trigger] system_entries()[i]).requirement.title@.len() > 0
                && system_entries()[i].mechanism@.len() > 0,
{
    titles_are_given();
    measures_are_given();
    keys_is_complete();
    logging_is_complete();
    integrity_is_complete();
    continuity_is_complete();
    ca_profile_is_complete();
    decision_is_complete();
    authentication_is_complete();
    lifetime_is_complete();
    reason_is_complete();
    publication_is_complete();
    online_status_is_complete();
    ceremony_is_complete();
    structures_is_complete();
    serial_is_complete();
    key_identifiers_is_complete();
    time_is_complete();
    tsu_profile_is_complete();
    tsu_key_is_complete();
    token_is_complete();
    protocol_is_complete();
    key_length_is_complete();
    signature_is_complete();
    digest_is_complete();
    revocation_list_is_complete();
    responder_is_complete();
    policy_is_complete();
    let all = system_entries();
    assert forall|i: int| 0 <= i < 28 implies (#[trigger] all[i]).requirement.title@.len() > 0
        && all[i].mechanism@.len() > 0 by {
        assert(i == 0 || i == 1 || i == 2 || i == 3 || i == 4 || i == 5 || i == 6 || i == 7 || i == 8 || i == 9 || i == 10 || i == 11 || i == 12 || i == 13 || i == 14 || i == 15 || i == 16 || i == 17 || i == 18 || i == 19 || i == 20 || i == 21 || i == 22 || i == 23 || i == 24 || i == 25 || i == 26 || i == 27);
    }
}

proof fn titles_are_given()
    ensures
        crate::matrix::KEYS_TITLE@.len() > 0,
        crate::matrix::LOGGING_TITLE@.len() > 0,
        crate::matrix::INTEGRITY_TITLE@.len() > 0,
        crate::matrix::CONTINUITY_TITLE@.len() > 0,
        crate::matrix::TERMINATION_TITLE@.len() > 0,
        crate::matrix::CA_PROFILE_TITLE@.len() > 0,
        crate::matrix::DECISION_TITLE@.len() > 0,
        crate::matrix::AUTHENTICATION_TITLE@.len() > 0,
        crate::matrix::LIFETIME_TITLE@.len() > 0,
        crate::matrix::REASON_TITLE@.len() > 0,
        crate::matrix::PUBLICATION_TITLE@.len() > 0,
        crate::matrix::ONLINE_STATUS_TITLE@.len() > 0,
        crate::matrix::CEREMONY_TITLE@.len() > 0,
        crate::matrix::STRUCTURES_TITLE@.len() > 0,
        crate::matrix::SERIAL_TITLE@.len() > 0,
        crate::matrix::KEY_IDENTIFIERS_TITLE@.len() > 0,
        crate::matrix::TIME_TITLE@.len() > 0,
        crate::matrix::TSU_PROFILE_TITLE@.len() > 0,
        crate::matrix::TSU_KEY_TITLE@.len() > 0,
        crate::matrix::TOKEN_TITLE@.len() > 0,
        crate::matrix::PROTOCOL_TITLE@.len() > 0,
        crate::matrix::KEY_LENGTH_TITLE@.len() > 0,
        crate::matrix::SIGNATURE_TITLE@.len() > 0,
        crate::matrix::DIGEST_TITLE@.len() > 0,
        crate::matrix::REVOCATION_LIST_TITLE@.len() > 0,
        crate::matrix::RESPONDER_TITLE@.len() > 0,
        crate::matrix::ASSESSMENT_TITLE@.len() > 0,
        crate::matrix::POLICY_TITLE@.len() > 0,
{
    reveal_strlit("Gestion des clés du prestataire dans un module cryptographique");
    reveal_strlit("Journalisation des événements et durée de conservation");
    reveal_strlit("Intégrité démontrable des enregistrements d'audit");
    reveal_strlit("Continuité d'activité et reprise après sinistre");
    reveal_strlit("Plan de cessation d'activité");
    reveal_strlit("Profil du certificat d'autorité de certification");
    reveal_strlit("Enregistrement et responsabilité de la décision d'émission");
    reveal_strlit("Authentification de la demande de certificat");
    reveal_strlit("Durée de vie du certificat plafonnée");
    reveal_strlit("Motif de révocation consigné");
    reveal_strlit("Publication régulière de l'état de révocation");
    reveal_strlit("Service d'état de révocation interrogeable en ligne");
    reveal_strlit("Cérémonie de génération des clés d'autorité");
    reveal_strlit("Structures communes du profil de certificat");
    reveal_strlit("Numéro de série positif et imprévisible");
    reveal_strlit("Identifiants de clé de sujet et d'autorité présents");
    reveal_strlit("Traçabilité de l'heure jusqu'à UTC et suspension en cas de dérive");
    reveal_strlit("Profil du certificat de l'unité d'horodatage");
    reveal_strlit("Génération de la clé TSU dans le module cryptographique");
    reveal_strlit("Profil du jeton d'horodatage");
    reveal_strlit("Protocole d'horodatage RFC 3161 sur HTTP");
    reveal_strlit("Longueur de clé suffisante pour la durée de vie visée");
    reveal_strlit("Algorithme de signature et fonction de hachage admis");
    reveal_strlit("Fonction de hachage admise pour l'empreinte soumise");
    reveal_strlit("Liste de révocation signée, numérotée et datée");
    reveal_strlit("Profil du certificat de signature du répondeur OCSP");
    reveal_strlit("Évaluation par un organisme d'évaluation de la conformité accrédité");
    reveal_strlit("Politique de service et déclaration des pratiques publiées");
}

proof fn measures_are_given()
    ensures
        crate::matrix::TERMINATION_MECHANISM@.len() > 0,
        crate::matrix::ASSESSMENT_MECHANISM@.len() > 0,
{
    reveal_strlit("Procédure organisationnelle décrite dans docs/CA.md, indépendante du langage d'implémentation.");
    reveal_strlit("Le dépôt est intégralement public ; cette matrice fournit le point d'entrée d'un audit, indépendamment du langage d'implémentation.");
}

/// The gaps of the system are the ceremony of the keys and the policy that is
/// not adopted yet; out of scope are the plan of cessation and the assessment.
pub proof fn gaps_are_named(i: int)
    requires
        0 <= i < 28,
    ensures
        ({
            let e = system_entries()[i];
            let cited = e.requirement.citation();
            &&& e.status == Status::Gap <==> cited == "ETSI EN 319 411-1"@ + " "@ + "§6.5.1"@
                || cited == "ETSI EN 319 401"@ + " "@ + "§6.1"@
            &&& e.status == Status::OutOfScope <==> cited == "ETSI EN 319 401"@ + " "@ + "§7.12"@
                || cited == "ETSI EN 319 403-1"@ + " "@ + "§7"@
        }),
{
    entries_have_places();
    provider_clauses_have_places();
    authority_clauses_have_places();
    assessment_clauses_have_places();
    let all = system_entries();
    assert(place(all[i].requirement.citation()) == i);
    assert(i == 0 || i == 1 || i == 2 || i == 3 || i == 4 || i == 5 || i == 6 || i == 7 || i == 8 || i == 9 || i == 10 || i == 11 || i == 12 || i == 13 || i == 14 || i == 15 || i == 16 || i == 17 || i == 18 || i == 19 || i == 20 || i == 21 || i == 22 || i == 23 || i == 24 || i == 25 || i == 26 || i == 27);
}

proof fn none_between(entries: Seq<Entry>, a: int, b: int, status: Status)
    requires
        0 <= a <= b <= entries.len(),
        forall|i: int| a <= i < b ==> (#[trigger] entries[i]).status != status,
    ensures
        count(entries.take(b), status) == count(entries.take(a), status),
    decreases b - a,
{
    if a < b {
        none_between(entries, a, b - 1, status);
        assert(entries.take(b).drop_last() =~= entries.take(b - 1));
        assert(entries.take(b).last() == entries[b - 1]);
    }
}

proof fn one_more(entries: Seq<Entry>, a: int, status: Status)
    requires
        0 <= a < entries.len(),
        entries[a].status == status,
    ensures
        count(entries.take(a + 1), status) == count(entries.take(a), status) + 1,
{
    assert(entries.take(a + 1).drop_last() =~= entries.take(a));
}

/// Of the entries of the matrix of the system, two are gaps and two are out of
/// scope; all others are covered.
pub proof fn system_matrix_is_counted()
    ensures
        count(system_entries(), Status::Covered) == 24,
        count(system_entries(), Status::Gap) == 2,
        count(system_entries(), Status::OutOfScope) == 2,
{
    let all = system_entries();
    assert(all.take(28) =~= all);
    assert(all.take(0) =~= seq![]);
    none_between(all, 0, 12, Status::Gap);
    one_more(all, 12, Status::Gap);
    none_between(all, 13, 27, Status::Gap);
    one_more(all, 27, Status::Gap);
    none_between(all, 0, 4, Status::OutOfScope);
    one_more(all, 4, Status::OutOfScope);
    none_between(all, 5, 26, Status::OutOfScope);
    one_more(all, 26, Status::OutOfScope);
    none_between(all, 27, 28, Status::OutOfScope);
    counts_add_up(all);
}

/// The entry holds these texts: its title, what is done, its test and its target.
pub open spec fn holds(i: int, title: &str, mechanism: &str, test: &str, target: &str) -> bool {
    let e = system_entries()[i];
    e.requirement.title@ == title@ && e.mechanism@ == mechanism@ && e.test@ == test@ && e.target@
        == target@
}

/// Every entry of the matrix of the system holds its own texts.
pub proof fn every_entry_holds_its_own_texts()
    ensures
        holds(
            0,
            crate::matrix::KEYS_TITLE,
            crate::matrix::KEYS_MECHANISM,
            crate::matrix::KEYS_TEST,
            "",
        ),
        holds(
            1,
            crate::matrix::LOGGING_TITLE,
            crate::matrix::LOGGING_MECHANISM,
            crate::matrix::LOGGING_TEST,
            "",
        ),
        holds(
            2,
            crate::matrix::INTEGRITY_TITLE,
            crate::matrix::INTEGRITY_MECHANISM,
            crate::matrix::INTEGRITY_TEST,
            "",
        ),
        holds(
            3,
            crate::matrix::CONTINUITY_TITLE,
            crate::matrix::CONTINUITY_MECHANISM,
            crate::matrix::CONTINUITY_TEST,
            "",
        ),
        holds(
            4,
            crate::matrix::TERMINATION_TITLE,
            crate::matrix::TERMINATION_MECHANISM,
            "",
            crate::matrix::TERMINATION_TARGET,
        ),
        holds(
            5,
            crate::matrix::CA_PROFILE_TITLE,
            crate::matrix::CA_PROFILE_MECHANISM,
            crate::matrix::CA_PROFILE_TEST,
            "",
        ),
        holds(
            6,
            crate::matrix::DECISION_TITLE,
            crate::matrix::DECISION_MECHANISM,
            crate::matrix::DECISION_TEST,
            "",
        ),
        holds(
            7,
            crate::matrix::AUTHENTICATION_TITLE,
            crate::matrix::AUTHENTICATION_MECHANISM,
            crate::matrix::AUTHENTICATION_TEST,
            "",
        ),
        holds(
            8,
            crate::matrix::LIFETIME_TITLE,
            crate::matrix::LIFETIME_MECHANISM,
            crate::matrix::LIFETIME_TEST,
            "",
        ),
        holds(
            9,
            crate::matrix::REASON_TITLE,
            crate::matrix::REASON_MECHANISM,
            crate::matrix::REASON_TEST,
            "",
        ),
        holds(
            10,
            crate::matrix::PUBLICATION_TITLE,
            crate::matrix::PUBLICATION_MECHANISM,
            crate::matrix::PUBLICATION_TEST,
            "",
        ),
        holds(
            11,
            crate::matrix::ONLINE_STATUS_TITLE,
            crate::matrix::ONLINE_STATUS_MECHANISM,
            crate::matrix::ONLINE_STATUS_TEST,
            "",
        ),
        holds(
            12,
            crate::matrix::CEREMONY_TITLE,
            crate::matrix::CEREMONY_MECHANISM,
            crate::matrix::CEREMONY_TEST,
            crate::matrix::CEREMONY_TARGET,
        ),
        holds(
            13,
            crate::matrix::STRUCTURES_TITLE,
            crate::matrix::STRUCTURES_MECHANISM,
            crate::matrix::STRUCTURES_TEST,
            "",
        ),
        holds(
            14,
            crate::matrix::SERIAL_TITLE,
            crate::matrix::SERIAL_MECHANISM,
            crate::matrix::SERIAL_TEST,
            "",
        ),
        holds(
            15,
            crate::matrix::KEY_IDENTIFIERS_TITLE,
            crate::matrix::KEY_IDENTIFIERS_MECHANISM,
            crate::matrix::KEY_IDENTIFIERS_TEST,
            "",
        ),
        holds(
            16,
            crate::matrix::TIME_TITLE,
            crate::matrix::TIME_MECHANISM,
            crate::matrix::TIME_TEST,
            "",
        ),
        holds(
            17,
            crate::matrix::TSU_PROFILE_TITLE,
            crate::matrix::TSU_PROFILE_MECHANISM,
            crate::matrix::TSU_PROFILE_TEST,
            "",
        ),
        holds(
            18,
            crate::matrix::TSU_KEY_TITLE,
            crate::matrix::TSU_KEY_MECHANISM,
            crate::matrix::TSU_KEY_TEST,
            "",
        ),
        holds(
            19,
            crate::matrix::TOKEN_TITLE,
            crate::matrix::TOKEN_MECHANISM,
            crate::matrix::TOKEN_TEST,
            "",
        ),
        holds(
            20,
            crate::matrix::PROTOCOL_TITLE,
            crate::matrix::PROTOCOL_MECHANISM,
            crate::matrix::PROTOCOL_TEST,
            "",
        ),
        holds(
            21,
            crate::matrix::KEY_LENGTH_TITLE,
            crate::matrix::KEY_LENGTH_MECHANISM,
            crate::matrix::KEY_LENGTH_TEST,
            "",
        ),
        holds(
            22,
            crate::matrix::SIGNATURE_TITLE,
            crate::matrix::SIGNATURE_MECHANISM,
            crate::matrix::SIGNATURE_TEST,
            "",
        ),
        holds(
            23,
            crate::matrix::DIGEST_TITLE,
            crate::matrix::DIGEST_MECHANISM,
            crate::matrix::DIGEST_TEST,
            "",
        ),
        holds(
            24,
            crate::matrix::REVOCATION_LIST_TITLE,
            crate::matrix::REVOCATION_LIST_MECHANISM,
            crate::matrix::REVOCATION_LIST_TEST,
            "",
        ),
        holds(
            25,
            crate::matrix::RESPONDER_TITLE,
            crate::matrix::RESPONDER_MECHANISM,
            crate::matrix::RESPONDER_TEST,
            "",
        ),
        holds(
            26,
            crate::matrix::ASSESSMENT_TITLE,
            crate::matrix::ASSESSMENT_MECHANISM,
            "",
            crate::matrix::ASSESSMENT_TARGET,
        ),
        holds(
            27,
            crate::matrix::POLICY_TITLE,
            crate::matrix::POLICY_MECHANISM,
            "",
            crate::matrix::POLICY_TARGET,
        ),
{
}

} // verus!
