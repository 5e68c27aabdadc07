//! The logic of a trust service provider: the conformance matrix and the checks
//! of certificates, the register and the enrolments of a certification
//! authority, and a responder for the status of certificates.

pub mod text;
pub mod order;
pub mod clock;
pub mod table;

pub mod crypto;
pub mod asn1;
pub mod calendar;
pub mod x509;
pub mod identifiers;
pub mod extensions;

pub mod conformance;
pub mod matrix;
pub mod consistency;
pub mod profile;

pub mod castore;
pub mod memory;
pub mod rows;

pub mod raflow;
pub mod decision;
pub mod submission;
pub mod enrolment;

pub mod ocsp_request;
pub mod ocsp_response;
pub mod ocsp;

pub mod settings;

pub mod laws;
