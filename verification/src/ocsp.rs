//! A responder for the status of certificates (RFC 6960). It rests on the
//! revocation list that the authority publishes: it sees what any third party
//! could see, and attests to nothing that the authority has not published.
//!
//! The list carries, in a private extension, every serial number ever issued. A
//! number that is neither revoked nor in that list was never issued, and is
//! `unknown`, never `good`.
use vstd::prelude::*;
use vstd::string::StringExecFns;

use crate::clock::{timestamp_at, Timestamp};
use crate::crypto::{rsa_signature_fault, rsa_verify, sha1, sha1_digest, sha256, sha256_digest};
use crate::extensions::{serial_contents, unsigned_content};
use crate::ocsp_request::{ids_asked, read_ids_asked, CertId, CertIdView};
use crate::ocsp_response::{
    bare_response, data_encodable, encode_response_data, encode_successful_response,
    error_response, response_data, successful_response, CertStatus, OcspResponseStatus, Update,
};
use crate::profile::{extension_of, find_extension, OID_CRL_ISSUED_SERIALS};
use crate::raflow::{common_name, common_name_of};
use crate::table::Table;
use crate::text::{bytes_eq, concat2, str_eq, trim_end_char, without_trailing};
use crate::x509::{
    byte_views, public_key_bits_of, read_public_key_bits, read_reason, read_revocation_list,
    reads_as,
    read_revoked_entries, read_serials, reason_code, revocation_list_of, revoked_entries_of,
    revoked_views, serials_of, Certificate, CertificateView, Extension, ExtensionView,
    RevokedEntry, RevokedEntryView,
};

verus! {

/// The extension of an entry that gives the reason of a revocation.
pub const OID_CRL_REASONS: &'static str = "2.5.29.21";

/// The digest algorithms of requests, in dotted notation.
pub const OID_SHA1: &'static str = "1.3.14.3.2.26";

pub const OID_SHA256: &'static str = "2.16.840.1.101.3.4.2.1";

/// The shortest time between two refreshes on demand, in nanoseconds, however
/// many requests come meanwhile.
pub const ON_DEMAND_REFRESH_COOLDOWN: u128 = 2_000_000_000;

/// Why the responder could not be set up, or its list not be refreshed.
#[derive(Debug)]
pub enum OcspError {
    MissingMaterial,
    MissingCrlUrl,
    Fetch(String),
    UnexpectedStatus(String),
    InvalidCrl(String),
    InvalidCrlSignature(String),
    Der(String),
    Signing(String),
}

impl OcspError {
    /// What is said about the error.
    pub open spec fn message(self) -> Seq<char> {
        match self {
            OcspError::MissingMaterial =>
                "ocspresponder: signataire, certificat et émetteur requis"@,
            OcspError::MissingCrlUrl => "ocspresponder: URL de CRL requise"@,
            OcspError::Fetch(text) => "ocspresponder: chargement de la CRL: "@ + text@,
            OcspError::UnexpectedStatus(text) => "ocspresponder: la PKI a répondu "@ + text@,
            OcspError::InvalidCrl(text) => "ocspresponder: CRL illisible: "@ + text@,
            OcspError::InvalidCrlSignature(text) =>
                "ocspresponder: signature de la CRL invalide: "@ + text@,
            OcspError::Der(text) => "ocspresponder: "@ + text@,
            OcspError::Signing(text) => "ocspresponder: signature de la réponse: "@ + text@,
        }
    }

    /// What is said about the error.
    pub fn to_string(&self) -> (r: String)
        ensures
            r@ == self.message(),
    {
        match self {
            OcspError::MissingMaterial =>
                "ocspresponder: signataire, certificat et émetteur requis".to_owned(),
            OcspError::MissingCrlUrl => "ocspresponder: URL de CRL requise".to_owned(),
            OcspError::Fetch(text) => concat2(
                "ocspresponder: chargement de la CRL: ",
                text.as_str(),
            ),
            OcspError::UnexpectedStatus(text) => concat2(
                "ocspresponder: la PKI a répondu ",
                text.as_str(),
            ),
            OcspError::InvalidCrl(text) => concat2(
                "ocspresponder: CRL illisible: ",
                text.as_str(),
            ),
            OcspError::InvalidCrlSignature(text) => concat2(
                "ocspresponder: signature de la CRL invalide: ",
                text.as_str(),
            ),
            OcspError::Der(text) => concat2("ocspresponder: ", text.as_str()),
            OcspError::Signing(text) => concat2(
                "ocspresponder: signature de la réponse: ",
                text.as_str(),
            ),
        }
    }
}

/// When a certificate was revoked and why.
#[derive(Debug, Clone, Copy, PartialEq, Eq, Structural)]
pub struct Revoked {
    pub at: Timestamp,
    pub reason: Option<u8>,
}

/// What a revocation list said when it was last read.
pub struct CrlSnapshot {
    revoked: Table<Revoked>,
    issued: Table<bool>,
    this_update: Timestamp,
    next_update: Timestamp,
    last_fetch: Option<u128>,
}

#[verifier::ext_equal]
pub ghost struct SnapshotView {
    /// By serial number.
    pub revoked: Map<Seq<u8>, Revoked>,
    /// Every serial number ever issued.
    pub issued: Set<Seq<u8>>,
    pub this_update: Timestamp,
    pub next_update: Timestamp,
    /// When it was read, in nanoseconds of a clock that never goes back.
    pub last_fetch: Option<u128>,
}

/// What a snapshot holds before any list was read.
pub open spec fn unread() -> SnapshotView {
    SnapshotView {
        revoked: Map::empty(),
        issued: Set::empty(),
        this_update: Timestamp { nanos: 0 },
        next_update: Timestamp { nanos: 0 },
        last_fetch: None,
    }
}

impl View for CrlSnapshot {
    type V = SnapshotView;

    closed spec fn view(&self) -> SnapshotView {
        SnapshotView {
            revoked: self.revoked.map(),
            issued: self.issued.map().dom(),
            this_update: self.this_update,
            next_update: self.next_update,
            last_fetch: self.last_fetch,
        }
    }
}

impl CrlSnapshot {
    /// The tables are in order.
    pub closed spec fn wf(self) -> bool {
        self.revoked.wf() && self.issued.wf()
    }

    /// Nothing was read yet.
    pub fn new() -> (r: CrlSnapshot)
        ensures
            r.wf(),
            r@ == unread(),
    {
        let r = CrlSnapshot {
            revoked: Table::new(),
            issued: Table::new(),
            this_update: Timestamp::epoch(),
            next_update: Timestamp::epoch(),
            last_fetch: None,
        };
        assert(r@.issued =~= Set::empty());
        r
    }
}

impl Default for CrlSnapshot {
    fn default() -> (r: CrlSnapshot)
        ensures
            r.wf(),
            r@ == unread(),
    {
        CrlSnapshot::new()
    }
}

/// The reason that the value of an extension gives, where it gives one.
pub open spec fn reason_of(value: Seq<u8>) -> Option<u8> {
    if value.len() == 3 && value[0] == 0x0a && value[1] == 1 && reason_code(value[2]) {
        Some(value[2])
    } else {
        None
    }
}

/// The reason that the extensions of an entry give.
pub open spec fn reason_in(extensions: Seq<ExtensionView>) -> Option<u8> {
    match extension_of(extensions, OID_CRL_REASONS@) {
        Some(e) => reason_of(e.value),
        None => None,
    }
}

/// What an entry says of its certificate.
pub open spec fn revocation_in(entry: RevokedEntryView) -> Revoked {
    Revoked { at: timestamp_at(entry.revoked_at as int), reason: reason_in(entry.extensions) }
}

/// What a list of entries says, by serial number; of several entries for one
/// number the last counts.
pub open spec fn revocations(entries: Seq<RevokedEntryView>) -> Map<Seq<u8>, Revoked>
    decreases entries.len(),
{
    if entries.len() == 0 {
        Map::empty()
    } else {
        revocations(entries.drop_last()).insert(
            entries.last().serial,
            revocation_in(entries.last()),
        )
    }
}

/// The members of a list.
pub open spec fn members(list: Seq<Seq<u8>>) -> Set<Seq<u8>> {
    Set::new(|s: Seq<u8>| list.contains(s))
}

/// The end of the validity of a list, the epoch where it gives none.
pub open spec fn due(next_update: Option<nat>) -> Timestamp {
    match next_update {
        Some(seconds) => timestamp_at(seconds as int),
        None => Timestamp { nanos: 0 },
    }
}

/// What a list with entries and issued numbers says.
pub open spec fn snapshot_of(
    entries: Seq<RevokedEntryView>,
    issued: Seq<Seq<u8>>,
    this_update: nat,
    next_update: Option<nat>,
    now: u128,
) -> SnapshotView {
    SnapshotView {
        revoked: revocations(entries),
        issued: members(issued),
        this_update: timestamp_at(this_update as int),
        next_update: due(next_update),
        last_fetch: Some(now),
    }
}

fn read_reason_in(extensions: &Vec<Extension>) -> (r: Option<u8>)
    ensures
        r == reason_in(crate::x509::extension_views(extensions@)),
{
    match find_extension(extensions, OID_CRL_REASONS) {
        Some(e) => read_reason(e.value.as_slice()),
        None => None,
    }
}

/// Seconds as the views have them.
pub open spec fn seconds_view(seconds: Option<u64>) -> Option<nat> {
    match seconds {
        Some(s) => Some(s as nat),
        None => None,
    }
}

/// What a list says, from its parts.
pub fn build_snapshot(
    entries: &Vec<RevokedEntry>,
    serials: &Vec<Vec<u8>>,
    this_update: u64,
    next_update: Option<u64>,
    now: u128,
) -> (r: CrlSnapshot)
    ensures
        r.wf(),
        r@ == snapshot_of(
            revoked_views(entries@),
            byte_views(serials@),
            this_update as nat,
            seconds_view(next_update),
            now,
        ),
{
    let ghost views = revoked_views(entries@);
    let mut revoked: Table<Revoked> = Table::new();
    let mut i: usize = 0;
    while i < entries.len()
        invariant
            i <= entries@.len(),
            views == revoked_views(entries@),
            revoked.wf(),
            revoked.map() == revocations(views.take(i as int)),
        decreases entries.len() - i,
    {
        proof {
            assert(views.take(i + 1).drop_last() =~= views.take(i as int));
            assert(views.take(i + 1).last() == entries@[i as int]@);
        }
        let entry = &entries[i];
        let at = Timestamp::from_unix_seconds(entry.revoked_at);
        let reason = read_reason_in(&entry.extensions);
        revoked.insert(entry.serial.as_slice(), Revoked { at, reason });
        i += 1;
    }
    proof {
        assert(views.take(views.len() as int) =~= views);
    }
    let ghost numbers = byte_views(serials@);
    let mut issued: Table<bool> = Table::new();
    let mut j: usize = 0;
    proof {
        assert(issued.map().dom() =~= members(numbers.take(0)));
    }
    while j < serials.len()
        invariant
            j <= serials@.len(),
            numbers == byte_views(serials@),
            issued.wf(),
            issued.map().dom() == members(numbers.take(j as int)),
        decreases serials.len() - j,
    {
        let ghost before = issued.map().dom();
        issued.insert(serials[j].as_slice(), true);
        proof {
            let longer = numbers.take(j + 1);
            assert(longer =~= numbers.take(j as int).push(numbers[j as int]));
            assert forall|s: Seq<u8>| #[trigger] longer.contains(s) <==> numbers.take(
                j as int,
            ).contains(s) || s == numbers[j as int] by {
                if numbers.take(j as int).contains(s) {
                    let k = choose|k: int| 0 <= k < j && numbers.take(j as int)[k] == s;
                    assert(longer[k] == s);
                }
                assert(longer[j as int] == numbers[j as int]);
            }
            assert(issued.map().dom() =~= members(longer));
        }
        j += 1;
    }
    proof {
        assert(numbers.take(numbers.len() as int) =~= numbers);
    }
    let until = match next_update {
        Some(seconds) => Timestamp::from_unix_seconds(seconds),
        None => Timestamp::epoch(),
    };
    let r = CrlSnapshot {
        revoked,
        issued,
        this_update: Timestamp::from_unix_seconds(this_update),
        next_update: until,
        last_fetch: Some(now),
    };
    assert(r@ =~= snapshot_of(
        views,
        numbers,
        this_update as nat,
        seconds_view(next_update),
        now,
    ));
    r
}

/// What a list without the issued numbers is said to be.
pub const NO_ISSUED_SERIALS: &'static str = "operation failed at DER byte 0";

/// What reading the encoding of a list comes to: it must be one, be signed by
/// the issuer, and carry the issued numbers.
pub open spec fn reads_snapshot(
    r: Result<CrlSnapshot, OcspError>,
    der: Seq<u8>,
    issuer: CertificateView,
    now: u128,
) -> bool {
    match revocation_list_of(der) {
        Err(fault) => r matches Err(OcspError::InvalidCrl(text)) && text@ == fault,
        Ok(l) => match rsa_signature_fault(
            issuer.public_key_info,
            sha256_digest(l.tbs),
            l.signature,
        ) {
            Some(fault) => r matches Err(OcspError::InvalidCrlSignature(text)) && text@ == fault,
            None => match extension_of(l.extensions, OID_CRL_ISSUED_SERIALS@) {
                None => r matches Err(OcspError::InvalidCrl(text)) && text@ == NO_ISSUED_SERIALS@,
                Some(e) => match serials_of(e.value) {
                    Err(fault) => r matches Err(OcspError::Der(text)) && text@ == fault,
                    Ok(issued) => {
                        &&& r matches Ok(s)
                        &&& s.wf()
                        &&& revoked_entries_of(der) matches Some(entries)
                        &&& s@ == snapshot_of(entries, issued, l.this_update, l.next_update, now)
                    },
                },
            },
        },
    }
}

/// Verifies the signature of a list with the issuer's key.
pub fn verify_crl_signature(tbs: &[u8], signature: &[u8], issuer: &Certificate) -> (r: Result<
    (),
    String,
>)
    ensures
        match r {
            Ok(_) => rsa_signature_fault(
                issuer@.public_key_info,
                sha256_digest(tbs@),
                signature@,
            ) is None,
            Err(text) => rsa_signature_fault(
                issuer@.public_key_info,
                sha256_digest(tbs@),
                signature@,
            ) == Some(text@),
        },
{
    let digest = sha256(tbs);
    rsa_verify(issuer.public_key_info.as_slice(), digest.as_slice(), signature)
}

/// Reads the encoding of a list.
pub fn read_snapshot(der: &[u8], issuer: &Certificate, now: u128) -> (r: Result<
    CrlSnapshot,
    OcspError,
>)
    ensures
        reads_snapshot(r, der@, issuer@, now),
{
    let l = match read_revocation_list(der) {
        Ok(l) => l,
        Err(text) => return Err(OcspError::InvalidCrl(text)),
    };
    match verify_crl_signature(l.tbs.as_slice(), l.signature.as_slice(), issuer) {
        Ok(_) => {},
        Err(text) => return Err(OcspError::InvalidCrlSignature(text)),
    }
    let e = match find_extension(&l.extensions, OID_CRL_ISSUED_SERIALS) {
        Some(e) => e,
        None => return Err(OcspError::InvalidCrl(NO_ISSUED_SERIALS.to_owned())),
    };
    let issued = match read_serials(e.value.as_slice()) {
        Ok(issued) => issued,
        Err(text) => return Err(OcspError::Der(text)),
    };
    let entries = match read_revoked_entries(der) {
        Some(entries) => entries,
        None => Vec::new(),
    };
    Ok(build_snapshot(&entries, &issued, l.this_update, l.next_update, now))
}

/// How a responder is set up.
#[derive(Debug)]
pub struct Options {
    /// The certificate whose key signs the answers.
    pub certificate: Certificate,
    /// The authority whose certificates are answered for.
    pub issuer: Certificate,
    pub crl_url: String,
    /// How often the list is refreshed, in nanoseconds.
    pub crl_refresh: u128,
    pub max_request_bytes: usize,
}

/// Answers requests from the last revocation list that was read.
pub struct Responder {
    pub opts: Options,
    pub snapshot: CrlSnapshot,
    /// When the list was last refreshed on demand.
    pub last_on_demand_refresh: Option<u128>,
}

/// The time of an event: on a clock that never goes back, in nanoseconds, and
/// in the calendar.
#[derive(Debug, Clone, Copy)]
pub struct Moment {
    pub ticks: u128,
    pub wall: Timestamp,
}

/// What came of the attempt to fetch a revocation list.
#[derive(Debug)]
pub enum Fetched {
    /// There was no reply.
    Failed { text: String },
    /// The code of the reply, as a number and in words, and its body.
    Reply { status: u16, status_text: String, body: Result<Vec<u8>, String> },
}

/// What to do next about a request.
#[derive(Debug)]
pub enum Step {
    /// Answer with these bytes.
    Reply { der: Vec<u8> },
    /// Fetch the list, refresh with it, then resume.
    Refresh { id: CertId, known: Update },
    /// Sign the digest, then finish.
    Sign { data: Vec<u8>, digest: Vec<u8> },
}

/// The list is too old to answer from: more than twice the time between two
/// refreshes has passed.
pub open spec fn stale(last_fetch: Option<u128>, now: u128, crl_refresh: u128) -> bool {
    match last_fetch {
        Some(t) => now - t > 2 * crl_refresh,
        None => true,
    }
}

/// The status of a serial number: revoked before all, good only where it was
/// issued, else unknown.
pub open spec fn status_of(s: SnapshotView, serial: Seq<u8>) -> CertStatus {
    if s.revoked.dom().contains(serial) {
        CertStatus::Revoked { at: s.revoked[serial].at, reason: s.revoked[serial].reason }
    } else if s.issued.contains(serial) {
        CertStatus::Good
    } else {
        CertStatus::Unknown
    }
}

/// What is known of a serial number, nothing where the list is too old or its
/// date cannot be given.
pub open spec fn known_of(
    s: SnapshotView,
    serial: Seq<u8>,
    now: u128,
    crl_refresh: u128,
) -> Option<Update> {
    if stale(s.last_fetch, now, crl_refresh) || !crate::ocsp_response::status_encodable(
        status_of(s, serial),
    ) {
        None
    } else {
        Some(
            Update {
                status: status_of(s, serial),
                this_update: s.this_update,
                next_update: s.next_update,
            },
        )
    }
}

/// Enough time has passed since the last refresh on demand.
pub open spec fn on_demand_allowed(last: Option<u128>, now: u128) -> bool {
    match last {
        Some(t) => now - t >= ON_DEMAND_REFRESH_COOLDOWN,
        None => true,
    }
}

/// The digests of the issuer's name and key under an algorithm, nothing for
/// another algorithm than SHA-1 and SHA-256.
pub open spec fn issuer_hashes(issuer: CertificateView, algorithm: Seq<char>) -> Option<
    (Seq<u8>, Seq<u8>),
> {
    match public_key_bits_of(issuer.public_key_info) {
        Some(key) => if algorithm == OID_SHA1@ {
            Some((sha1_digest(issuer.subject), sha1_digest(key)))
        } else if algorithm == OID_SHA256@ {
            Some((sha256_digest(issuer.subject), sha256_digest(key)))
        } else {
            None
        },
        None => None,
    }
}

/// The step is an answer with nothing but an outcome.
pub open spec fn replies(step: Step, status: OcspResponseStatus) -> bool {
    step matches Step::Reply { der } && der@ == bare_response(status)
}

/// The step signs the answer, or reports that it cannot be encoded.
pub open spec fn answers(
    responder: CertificateView,
    id: Seq<u8>,
    u: Update,
    produced_at: Timestamp,
    step: Step,
) -> bool {
    if data_encodable(responder.subject, id, u, produced_at) {
        step matches Step::Sign { data, digest } && data@ == response_data(
            responder.subject,
            id,
            u,
            produced_at,
        ) && digest@ == sha256_digest(data@)
    } else {
        replies(step, OcspResponseStatus::InternalError)
    }
}

/// What a request comes to: the first identifier is answered for.
pub open spec fn handles(
    before: Responder,
    after: Responder,
    request: Seq<u8>,
    now: Moment,
    step: Step,
) -> bool {
    match ids_asked(request) {
        None => after == before && replies(step, OcspResponseStatus::MalformedRequest),
        Some(ids) => if ids.len() == 0 {
            after == before && replies(step, OcspResponseStatus::MalformedRequest)
        } else {
            handles_id(before, after, ids[0], now, step)
        },
    }
}

/// What a request about an identifier comes to: it must name the issuer, the
/// list must be recent, and an unknown number may call for a refresh first.
pub open spec fn handles_id(
    before: Responder,
    after: Responder,
    id: CertIdView,
    now: Moment,
    step: Step,
) -> bool {
    match issuer_hashes(before.opts.issuer@, id.algorithm) {
        None => after == before && replies(step, OcspResponseStatus::MalformedRequest),
        Some((name_hash, key_hash)) => if id.name_hash != name_hash || id.key_hash != key_hash {
            after == before && replies(step, OcspResponseStatus::Unauthorized)
        } else {
            match known_of(before.snapshot@, id.serial, now.ticks, before.opts.crl_refresh) {
                None => after == before && replies(step, OcspResponseStatus::TryLater),
                Some(u) => if u.status is Unknown && on_demand_allowed(
                    before.last_on_demand_refresh,
                    now.ticks,
                ) {
                    &&& step matches Step::Refresh { id: i, known }
                    &&& i@ == id
                    &&& known == u
                    &&& after == (Responder {
                        last_on_demand_refresh: Some(now.ticks),
                        ..before
                    })
                } else {
                    after == before && answers(
                        before.opts.certificate@,
                        id.encoding,
                        u,
                        now.wall,
                        step,
                    )
                },
            }
        },
    }
}

/// The address at which the list of an issuer is published, from the address of
/// the authority and the name of the issuer's files.
pub fn crl_url(pki_internal_url: &str, file_name: &str) -> (r: String)
    ensures
        r@ == without_trailing(pki_internal_url@, '/') + "/download/"@ + file_name@ + ".crl"@,
{
    let mut r = trim_end_char(pki_internal_url, '/');
    r.append("/download/");
    r.append(file_name);
    r.append(".crl");
    r
}

/// The common name of an issuer, from which the name of its files is derived.
pub fn issuer_common_name(issuer: &Certificate) -> (r: String)
    ensures
        r@ == common_name_of(issuer@.subject),
{
    common_name(issuer.subject.as_slice())
}

/// The digests of the issuer's name and key: of the bits of the key alone,
/// without the algorithm that goes with them.
pub fn compute_issuer_hashes(issuer: &Certificate, algorithm: &str) -> (r: Option<
    (Vec<u8>, Vec<u8>),
>)
    ensures
        match r {
            Some((name_hash, key_hash)) => issuer_hashes(issuer@, algorithm@) == Some(
                (name_hash@, key_hash@),
            ),
            None => issuer_hashes(issuer@, algorithm@) is None,
        },
{
    let key = read_public_key_bits(issuer.public_key_info.as_slice())?;
    if str_eq(algorithm, OID_SHA1) {
        Some((sha1(issuer.subject.as_slice()), sha1(key.as_slice())))
    } else if str_eq(algorithm, OID_SHA256) {
        Some((sha256(issuer.subject.as_slice()), sha256(key.as_slice())))
    } else {
        None
    }
}

fn reply(status: OcspResponseStatus) -> (step: Step)
    ensures
        replies(step, status),
{
    Step::Reply { der: error_response(status) }
}

impl Responder {
    /// The snapshot is in order.
    pub open spec fn wf(self) -> bool {
        self.snapshot.wf()
    }

    /// A responder that has read no list yet. The address of the list must be
    /// given.
    pub fn new(opts: Options) -> (r: Result<Responder, OcspError>)
        ensures
            match r {
                Ok(x) => {
                    &&& opts.crl_url@.len() > 0
                    &&& x.wf()
                    &&& x.opts == opts
                    &&& x.snapshot@ == unread()
                    &&& x.last_on_demand_refresh is None
                },
                Err(e) => opts.crl_url@.len() == 0 && e == OcspError::MissingCrlUrl,
            },
    {
        if opts.crl_url.as_str().is_empty() {
            return Err(OcspError::MissingCrlUrl);
        }
        Ok(Responder { opts, snapshot: CrlSnapshot::new(), last_on_demand_refresh: None })
    }

    /// Takes in what was fetched. What cannot be read leaves the last list in
    /// place.
    pub fn refresh(&mut self, fetched: Fetched, now: u128) -> (r: Result<(), OcspError>)
        requires
            old(self).wf(),
        ensures
            final(self).wf(),
            final(self).opts == old(self).opts,
            final(self).last_on_demand_refresh == old(self).last_on_demand_refresh,
            r is Err ==> final(self).snapshot == old(self).snapshot,
            match fetched {
                Fetched::Failed { text } => r == Err::<(), OcspError>(OcspError::Fetch(text)),
                Fetched::Reply { status, status_text, body } => if !(200 <= status <= 299) {
                    r == Err::<(), OcspError>(OcspError::UnexpectedStatus(status_text))
                } else {
                    match body {
                        Err(text) => r == Err::<(), OcspError>(OcspError::Fetch(text)),
                        Ok(der) => reads_snapshot(
                            match r {
                                Ok(_) => Ok(final(self).snapshot),
                                Err(e) => Err(e),
                            },
                            der@,
                            old(self).opts.issuer@,
                            now,
                        ),
                    }
                },
            },
    {
        let der = match fetched {
            Fetched::Failed { text } => return Err(OcspError::Fetch(text)),
            Fetched::Reply { status, status_text, body } => {
                if !(200 <= status && status <= 299) {
                    return Err(OcspError::UnexpectedStatus(status_text));
                }
                match body {
                    Ok(der) => der,
                    Err(text) => return Err(OcspError::Fetch(text)),
                }
            },
        };
        match read_snapshot(der.as_slice(), &self.opts.issuer, now) {
            Ok(snapshot) => {
                self.snapshot = snapshot;
                Ok(())
            },
            Err(e) => Err(e),
        }
    }

    /// What is known of a serial number; nothing where the list is too old,
    /// which is answered with "try later".
    pub fn lookup(&self, serial: &[u8], now: u128) -> (r: Option<Update>)
        requires
            self.wf(),
        ensures
            r == known_of(self.snapshot@, serial@, now, self.opts.crl_refresh),
    {
        let every = self.opts.crl_refresh;
        match self.snapshot.last_fetch {
            None => return None,
            Some(t) => {
                if now > t {
                    let elapsed: u128 = now - t;
                    if elapsed > every && elapsed - every > every {
                        return None;
                    }
                }
            },
        }
        let status = match self.snapshot.revoked.get(serial) {
            Some(rev) => {
                if crate::calendar::encode_time(rev.at).is_none() {
                    return None;
                }
                CertStatus::Revoked { at: rev.at, reason: rev.reason }
            },
            None => match self.snapshot.issued.get(serial) {
                Some(_) => CertStatus::Good,
                None => CertStatus::Unknown,
            },
        };
        Some(
            Update {
                status,
                this_update: self.snapshot.this_update,
                next_update: self.snapshot.next_update,
            },
        )
    }

    /// Whether the list may be refreshed on demand, and if so, from when the
    /// next time is counted. Whoever asks about numbers at random must not
    /// cause a fetch for each.
    pub fn try_on_demand_refresh(&mut self, now: u128) -> (r: bool)
        requires
            old(self).wf(),
        ensures
            final(self).wf(),
            r == on_demand_allowed(old(self).last_on_demand_refresh, now),
            *final(self) == (if r {
                Responder { last_on_demand_refresh: Some(now), ..*old(self) }
            } else {
                *old(self)
            }),
    {
        match self.last_on_demand_refresh {
            Some(t) => {
                if now < t || now - t < ON_DEMAND_REFRESH_COOLDOWN {
                    return false;
                }
            },
            None => {},
        }
        self.last_on_demand_refresh = Some(now);
        true
    }

    fn answer(&self, id: &[u8], u: Update, produced_at: Timestamp) -> (step: Step)
        ensures
            answers(self.opts.certificate@, id@, u, produced_at, step),
    {
        match encode_response_data(
            self.opts.certificate.subject.as_slice(),
            id,
            u,
            produced_at,
        ) {
            Some(data) => {
                let digest = sha256(data.as_slice());
                Step::Sign { data, digest }
            },
            None => reply(OcspResponseStatus::InternalError),
        }
    }

    /// Begins with a request. Every request is answered: a refusal is an answer
    /// with another outcome than success.
    pub fn handle(&mut self, req_der: &[u8], now: Moment) -> (step: Step)
        requires
            old(self).wf(),
        ensures
            final(self).wf(),
            handles(*old(self), *final(self), req_der@, now, step),
    {
        let mut ids = match read_ids_asked(req_der) {
            Some(ids) => ids,
            None => return reply(OcspResponseStatus::MalformedRequest),
        };
        if ids.len() == 0 {
            return reply(OcspResponseStatus::MalformedRequest);
        }
        let ghost all = crate::ocsp_request::id_views(ids@);
        let id = ids.swap_remove(0);
        assert(all[0] == id@);
        self.handle_id(id, now)
    }

    fn handle_id(&mut self, id: CertId, now: Moment) -> (step: Step)
        requires
            old(self).wf(),
        ensures
            final(self).wf(),
            handles_id(*old(self), *final(self), id@, now, step),
    {
        let (name_hash, key_hash) = match compute_issuer_hashes(
            &self.opts.issuer,
            id.algorithm.as_str(),
        ) {
            Some(hashes) => hashes,
            None => return reply(OcspResponseStatus::MalformedRequest),
        };
        if !bytes_eq(id.name_hash.as_slice(), name_hash.as_slice()) || !bytes_eq(
            id.key_hash.as_slice(),
            key_hash.as_slice(),
        ) {
            return reply(OcspResponseStatus::Unauthorized);
        }
        let known = match self.lookup(id.serial.as_slice(), now.ticks) {
            Some(u) => u,
            None => return reply(OcspResponseStatus::TryLater),
        };
        if known.status == CertStatus::Unknown && self.try_on_demand_refresh(now.ticks) {
            return Step::Refresh { id, known };
        }
        self.answer(id.encoding.as_slice(), known, now.wall)
    }

    /// Goes on after a refresh, whether it succeeded or not: with what is known
    /// now, else with what was known before.
    pub fn resume(&self, id: &CertId, known: Update, now: Moment) -> (step: Step)
        requires
            self.wf(),
        ensures
            answers(
                self.opts.certificate@,
                id@.encoding,
                match known_of(self.snapshot@, id@.serial, now.ticks, self.opts.crl_refresh) {
                    Some(u) => u,
                    None => known,
                },
                now.wall,
                step,
            ),
    {
        match self.lookup(id.serial.as_slice(), now.ticks) {
            Some(u) => self.answer(id.encoding.as_slice(), u, now.wall),
            None => self.answer(id.encoding.as_slice(), known, now.wall),
        }
    }

    /// The answer, with the signature that was made; an internal error where
    /// there is none.
    pub fn sign_response(&self, data: &[u8], signature: Result<Vec<u8>, String>) -> (der: Vec<u8>)
        ensures
            der@ == match signature {
                Ok(s) => {
                    let whole = successful_response(
                        data@,
                        s@,
                        self.opts.certificate@.encoding,
                    );
                    if whole.len() <= crate::asn1::MAX_CONTENT {
                        whole
                    } else {
                        bare_response(OcspResponseStatus::InternalError)
                    }
                },
                Err(_) => bare_response(OcspResponseStatus::InternalError),
            },
    {
        match signature {
            Ok(s) => match encode_successful_response(
                data,
                s.as_slice(),
                self.opts.certificate.encoding.as_slice(),
            ) {
                Some(der) => der,
                None => error_response(OcspResponseStatus::InternalError),
            },
            Err(_) => error_response(OcspResponseStatus::InternalError),
        }
    }
}

/// A number that was never issued is unknown, never good.
pub proof fn never_issued_is_never_good(s: SnapshotView, serial: Seq<u8>)
    ensures
        status_of(s, serial) is Good <==> s.issued.contains(serial)
            && !s.revoked.dom().contains(serial),
        !s.issued.contains(serial) && !s.revoked.dom().contains(serial) ==> status_of(s, serial)
            == CertStatus::Unknown,
{
}

/// A revocation is reported whatever else the list says.
pub proof fn revoked_before_all(s: SnapshotView, serial: Seq<u8>)
    requires
        s.revoked.dom().contains(serial),
    ensures
        status_of(s, serial) == (CertStatus::Revoked {
            at: s.revoked[serial].at,
            reason: s.revoked[serial].reason,
        }),
{
}

/// A list that is too old answers for nobody.
pub proof fn stale_list_answers_for_nobody(
    before: Responder,
    after: Responder,
    id: CertIdView,
    now: Moment,
    step: Step,
)
    requires
        stale(before.snapshot@.last_fetch, now.ticks, before.opts.crl_refresh),
        handles_id(before, after, id, now, step),
    ensures
        step is Reply,
        after == before,
{
}

/// Between two refreshes on demand there is at least the cooldown: a request
/// that comes sooner is answered from the list at hand.
pub proof fn refreshes_are_rate_limited(
    before: Responder,
    middle: Responder,
    after: Responder,
    first: CertIdView,
    second: CertIdView,
    at: Moment,
    later: Moment,
    step: Step,
    next: Step,
)
    requires
        handles_id(before, middle, first, at, step),
        step is Refresh,
        handles_id(middle, after, second, later, next),
        later.ticks - at.ticks < ON_DEMAND_REFRESH_COOLDOWN,
    ensures
        !(next is Refresh),
{
}

/// A serial number that the authority lists as issued is seen as issued, and
/// never unknown: what the extension of the list is built from is what the
/// responder reads.
pub proof fn published_serial_is_seen(
    s: CrlSnapshot,
    der: Seq<u8>,
    issuer: CertificateView,
    now: u128,
    value: Seq<u8>,
    serials: Seq<Seq<u8>>,
    i: int,
)
    requires
        reads_snapshot(Ok(s), der, issuer, now),
        revocation_list_of(der) matches Ok(l) && extension_of(
            l.extensions,
            OID_CRL_ISSUED_SERIALS@,
        ) matches Some(e) && e.value == value,
        reads_as(serials_of(value), serial_contents(serials)),
        0 <= i < serials.len(),
    ensures
        s@.issued.contains(unsigned_content(serials[i])),
        !(status_of(s@, unsigned_content(serials[i])) is Unknown),
{
    let contents = serial_contents(serials);
    assert(contents[i] == unsigned_content(serials[i]));
    assert(contents.contains(unsigned_content(serials[i])));
}

/// Every entry of a list is taken in.
pub proof fn every_entry_is_taken_in(entries: Seq<RevokedEntryView>, i: int)
    requires
        0 <= i < entries.len(),
    ensures
        revocations(entries).dom().contains(entries[i].serial),
    decreases entries.len(),
{
    if i < entries.len() - 1 {
        every_entry_is_taken_in(entries.drop_last(), i);
        assert(entries.drop_last()[i] == entries[i]);
    }
}

} // verus!
