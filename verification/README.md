# open_eidas

The verified core of a trust service provider, written in Verus. Every function
of the library states what it does in its contract, and Verus proves it.

- `conformance`, `matrix`, `profile`: the matrix of requirements that the system
  applies, and the checks of certificates that are read back.
- `extensions`, `identifiers`, `x509`: extensions as they are built and read,
  object identifiers, certificates and revocation lists as plain values.
- `castore`, `memory`, `rows`: the register of certificates, the requests and
  the revocation lists; the store in memory, and what the rows of a database
  mean.
- `raflow`, `decision`, `submission`, `enrolment`: the enrolment of a key, from
  the request to the certificate. Decisions and submissions are steps that
  alternate with the store, the journal and the authority.
- `ocsp_request`, `ocsp_response`, `ocsp`: the responder (RFC 6960).
- `settings`: the settings of the responder.
- `text`, `order`, `clock`, `calendar`, `table`, `asn1`, `crypto`: what the rest
  is built on.

What the library takes on trust are the contracts of the functions that call
outside crates, and what it promises as a whole stands in public proof functions
beside the functions that they speak of.

`app/` holds the program `ocsp-responder` and the asynchronous services around
the library; `tests/` holds the tests.
