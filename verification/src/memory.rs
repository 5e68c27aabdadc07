//! The store in memory, with the constraints that a database would enforce:
//! serial numbers are unique, fingerprints are unique, and a request changes
//! only from the state that is expected.
use vstd::prelude::*;

use crate::asn1::copy_of;
use crate::castore::{
    Authority, AuthorityView, Certificate, CertificateStatus, CertificateView, Crl, CrlView,
    Request, RequestState, RequestView, Serial, StoreError,
};
use crate::clock::{Duration, Timestamp};
use crate::order::{lex_less, str_less, text_less};
use crate::table::Table;
use crate::text::str_eq;

verus! {

/// What the store holds.
#[verifier::ext_equal]
pub ghost struct StoreView {
    /// By name.
    pub authorities: Map<Seq<char>, AuthorityView>,
    /// By serial number.
    pub certificates: Map<Seq<u8>, CertificateView>,
    /// By transaction.
    pub requests: Map<Seq<char>, RequestView>,
    /// The transaction of each fingerprint.
    pub by_fingerprint: Map<Seq<char>, Seq<char>>,
    /// In the order in which they were saved.
    pub crls: Seq<CrlView>,
    /// The last number that was given to a revocation list.
    pub next_crl: int,
}

/// The keys of the register are the serial numbers of its lines, those of the
/// requests their transactions, and each fingerprint leads to a request.
pub open spec fn coherent(s: StoreView) -> bool {
    &&& forall|k: Seq<u8>| #[trigger]
        s.certificates.dom().contains(k) ==> s.certificates[k].serial == k
    &&& forall|k: Seq<char>| #[trigger]
        s.requests.dom().contains(k) ==> s.requests[k].transaction_id == k
    &&& forall|f: Seq<char>| #[trigger]
        s.by_fingerprint.dom().contains(f) ==> s.requests.dom().contains(s.by_fingerprint[f])
}

/// What an empty store holds.
pub open spec fn nothing() -> StoreView {
    StoreView {
        authorities: Map::empty(),
        certificates: Map::empty(),
        requests: Map::empty(),
        by_fingerprint: Map::empty(),
        crls: seq![],
        next_crl: 0,
    }
}

/// The line of a serial number that is reserved for a profile.
pub open spec fn reserved(serial: Seq<u8>, profile: Seq<char>) -> CertificateView {
    CertificateView {
        serial,
        profile,
        subject_dn: seq![],
        issuer_dn: seq![],
        not_before: Timestamp { nanos: 0 },
        not_after: Timestamp { nanos: 0 },
        der: seq![],
        status: CertificateStatus::Reserved,
        revoked_at: None,
        revocation_reason: 0,
        request_transaction_id: seq![],
    }
}

/// A certificate that is signed, revoked or not.
pub open spec fn visible(s: StoreView, serial: Seq<u8>) -> bool {
    s.certificates.dom().contains(serial) && s.certificates[serial].status
        != CertificateStatus::Reserved
}

/// The line of a certificate once it is revoked. The first revocation counts.
pub open spec fn revoked_line(
    c: CertificateView,
    at: Timestamp,
    reason: i32,
) -> CertificateView {
    if c.status == CertificateStatus::Issued {
        CertificateView {
            status: CertificateStatus::Revoked,
            revoked_at: Some(at),
            revocation_reason: reason,
            ..c
        }
    } else {
        c
    }
}

/// In strictly ascending order of serial numbers.
pub open spec fn by_serial(list: Seq<CertificateView>) -> bool {
    forall|i: int, j: int|
        0 <= i < j < list.len() ==> lex_less(
            (#[trigger] list[i]).serial,
            (#[trigger] list[j]).serial,
        )
}

/// The lines of the register that satisfy a condition, by serial number.
pub open spec fn lists_lines(
    list: Seq<CertificateView>,
    s: StoreView,
    keep: spec_fn(CertificateView) -> bool,
) -> bool {
    &&& by_serial(list)
    &&& forall|c: CertificateView| #[trigger]
        list.contains(c) <==> s.certificates.dom().contains(c.serial)
            && s.certificates[c.serial] == c && keep(c)
}

/// Issued for the subject and not expired.
pub open spec fn active(subject_dn: Seq<char>, now: Timestamp) -> spec_fn(
    CertificateView,
) -> bool {
    |c: CertificateView|
        c.status == CertificateStatus::Issued && c.subject_dn == subject_dn && now.nanos
            < c.not_after.nanos
}

/// Revoked, and not expired for longer than the grace.
pub open spec fn listed_as_revoked(now: Timestamp, grace: Duration) -> spec_fn(
    CertificateView,
) -> bool {
    |c: CertificateView|
        c.status == CertificateStatus::Revoked && now.nanos <= c.not_after.nanos + grace.nanos
}

/// The views of a list of lines.
pub open spec fn line_views(list: Seq<Certificate>) -> Seq<CertificateView> {
    list.map_values(|c: Certificate| c@)
}

/// The older request first, and of two of the same age the one whose
/// transaction comes first.
pub open spec fn older(a: RequestView, b: RequestView) -> bool {
    a.created_at.nanos < b.created_at.nanos || (a.created_at.nanos == b.created_at.nanos
        && text_less(a.transaction_id, b.transaction_id))
}

/// In strictly ascending order of age and transaction.
pub open spec fn oldest_first(list: Seq<RequestView>) -> bool {
    forall|i: int, j: int|
        0 <= i < j < list.len() ==> older(#[trigger] list[i], #[trigger] list[j])
}

/// The requests in a state, or all of them, the oldest first.
pub open spec fn lists_requests(
    list: Seq<RequestView>,
    s: StoreView,
    state: Option<RequestState>,
) -> bool {
    &&& oldest_first(list)
    &&& forall|r: RequestView| #[trigger]
        list.contains(r) <==> s.requests.dom().contains(r.transaction_id)
            && s.requests[r.transaction_id] == r && (state is None || r.state == state->0)
}

/// The views of a list of requests.
pub open spec fn request_views(list: Seq<Request>) -> Seq<RequestView> {
    list.map_values(|r: Request| r@)
}

/// The revocation list with the highest number, the last saved one of several.
pub open spec fn is_latest(c: CrlView, crls: Seq<CrlView>) -> bool {
    exists|i: int|
        #![trigger crls[i]]
        {
            &&& 0 <= i < crls.len()
            &&& crls[i] == c
            &&& forall|j: int| 0 <= j < crls.len() ==> (#[trigger] crls[j]).number <= c.number
            &&& forall|j: int| i < j < crls.len() ==> (#[trigger] crls[j]).number < c.number
        }
}

/// A table with texts for keys, as a map.
pub open spec fn text_map<V, W>(t: Table<V>, f: spec_fn(V) -> W) -> Map<Seq<char>, W> {
    Map::new(
        |k: Seq<char>| t.map().dom().contains(vstd::utf8::encode_utf8(k)),
        |k: Seq<char>| f(t.map()[vstd::utf8::encode_utf8(k)]),
    )
}

proof fn text_map_insert<V, W>(a: Table<V>, b: Table<V>, f: spec_fn(V) -> W, key: Seq<char>, v: V)
    requires
        b.map() == a.map().insert(vstd::utf8::encode_utf8(key), v),
    ensures
        text_map(b, f) == text_map(a, f).insert(key, f(v)),
{
    vstd::utf8::encode_utf8_decode_utf8(key);
    assert forall|k: Seq<char>|
        vstd::utf8::encode_utf8(k) == vstd::utf8::encode_utf8(key) implies k == key by {
        vstd::utf8::encode_utf8_decode_utf8(k);
    }
    assert(text_map(b, f) =~= text_map(a, f).insert(key, f(v)));
}

/// Two lists of the same lines are the same list.
pub proof fn lines_are_unique(
    a: Seq<CertificateView>,
    b: Seq<CertificateView>,
    s: StoreView,
    keep: spec_fn(CertificateView) -> bool,
)
    requires
        lists_lines(a, s, keep),
        lists_lines(b, s, keep),
    ensures
        a == b,
{
    assert forall|c: CertificateView| #[trigger] a.contains(c) <==> b.contains(c) by {}
    sorted_lines_unique(a, b);
}

proof fn sorted_lines_unique(a: Seq<CertificateView>, b: Seq<CertificateView>)
    requires
        by_serial(a),
        by_serial(b),
        forall|c: CertificateView| #[trigger] a.contains(c) <==> b.contains(c),
    ensures
        a == b,
    decreases a.len(),
{
    if a.len() == 0 {
        if b.len() > 0 {
            assert(b.contains(b[0]));
            assert(a.contains(b[0]));
        }
        assert(a =~= b);
    } else {
        let x = a.last();
        let y = b.last();
        assert(a.contains(x));
        assert(b.contains(x));
        assert(b.contains(y));
        assert(a.contains(y));
        line_order_shrinks(a);
        line_order_shrinks(b);
        if x != y {
            crate::order::lex_asymmetric(x.serial, y.serial);
        }
        sorted_lines_unique(a.drop_last(), b.drop_last());
        assert(a =~= a.drop_last().push(x));
        assert(b =~= b.drop_last().push(y));
    }
}

proof fn line_order_shrinks(a: Seq<CertificateView>)
    requires
        by_serial(a),
        a.len() > 0,
    ensures
        by_serial(a.drop_last()),
        forall|c: CertificateView| #[trigger]
            a.drop_last().contains(c) <==> a.contains(c) && c != a.last(),
        forall|c: CertificateView| #[trigger]
            a.contains(c) ==> c == a.last() || lex_less(c.serial, a.last().serial),
{
    let r = a.drop_last();
    assert forall|c: CertificateView| #[trigger] r.contains(c) <==> a.contains(c) && c
        != a.last() by {
        if r.contains(c) {
            let k = choose|k: int| 0 <= k < r.len() && r[k] == c;
            assert(a[k] == c);
            assert(lex_less(a[k].serial, a[a.len() - 1].serial));
            crate::order::lex_irreflexive(c.serial);
        }
        if a.contains(c) && c != a.last() {
            let m = choose|m: int| 0 <= m < a.len() && a[m] == c;
            assert(r[m] == c);
        }
    }
    assert forall|p: int, q: int| 0 <= p < q < r.len() implies lex_less(
        (#[trigger] r[p]).serial,
        (#[trigger] r[q]).serial,
    ) by {
        assert(lex_less(a[p].serial, a[q].serial));
    }
    assert forall|c: CertificateView| #[trigger] a.contains(c) implies c == a.last() || lex_less(
        c.serial,
        a.last().serial,
    ) by {
        let m = choose|m: int| 0 <= m < a.len() && a[m] == c;
        if m < a.len() - 1 {
            assert(lex_less(a[m].serial, a[a.len() - 1].serial));
        }
    }
}

/// Two lists of the same requests are the same list.
pub proof fn request_lists_are_unique(
    a: Seq<RequestView>,
    b: Seq<RequestView>,
    s: StoreView,
    state: Option<RequestState>,
)
    requires
        lists_requests(a, s, state),
        lists_requests(b, s, state),
    ensures
        a == b,
{
    assert forall|r: RequestView| #[trigger] a.contains(r) <==> b.contains(r) by {}
    sorted_requests_unique(a, b);
}

proof fn older_is_asymmetric(a: RequestView, b: RequestView)
    ensures
        !(older(a, b) && older(b, a)),
{
    if text_less(a.transaction_id, b.transaction_id) {
        crate::order::lex_asymmetric(
            vstd::utf8::encode_utf8(a.transaction_id),
            vstd::utf8::encode_utf8(b.transaction_id),
        );
    }
}

proof fn sorted_requests_unique(a: Seq<RequestView>, b: Seq<RequestView>)
    requires
        oldest_first(a),
        oldest_first(b),
        forall|r: RequestView| #[trigger] a.contains(r) <==> b.contains(r),
    ensures
        a == b,
    decreases a.len(),
{
    if a.len() == 0 {
        if b.len() > 0 {
            assert(b.contains(b[0]));
            assert(a.contains(b[0]));
        }
        assert(a =~= b);
    } else {
        let x = a.last();
        let y = b.last();
        assert(a.contains(x));
        assert(b.contains(x));
        assert(b.contains(y));
        assert(a.contains(y));
        request_order_shrinks(a);
        request_order_shrinks(b);
        if x != y {
            older_is_asymmetric(x, y);
        }
        sorted_requests_unique(a.drop_last(), b.drop_last());
        assert(a =~= a.drop_last().push(x));
        assert(b =~= b.drop_last().push(y));
    }
}

proof fn request_order_shrinks(a: Seq<RequestView>)
    requires
        oldest_first(a),
        a.len() > 0,
    ensures
        oldest_first(a.drop_last()),
        forall|r: RequestView| #[trigger]
            a.drop_last().contains(r) <==> a.contains(r) && r != a.last(),
        forall|r: RequestView| #[trigger]
            a.contains(r) ==> r == a.last() || older(r, a.last()),
{
    let rest = a.drop_last();
    assert forall|r: RequestView| #[trigger] rest.contains(r) <==> a.contains(r) && r
        != a.last() by {
        if rest.contains(r) {
            let k = choose|k: int| 0 <= k < rest.len() && rest[k] == r;
            assert(a[k] == r);
            assert(older(a[k], a[a.len() - 1]));
            older_is_asymmetric(r, r);
        }
        if a.contains(r) && r != a.last() {
            let m = choose|m: int| 0 <= m < a.len() && a[m] == r;
            assert(rest[m] == r);
        }
    }
    assert forall|r: RequestView| #[trigger] a.contains(r) implies r == a.last() || older(
        r,
        a.last(),
    ) by {
        let m = choose|m: int| 0 <= m < a.len() && a[m] == r;
        if m < a.len() - 1 {
            assert(older(a[m], a[a.len() - 1]));
        }
    }
}

/// A serial number that is only reserved stays invisible, and cannot be
/// reserved again.
pub proof fn reservation_is_invisible(s: StoreView, serial: Seq<u8>, profile: Seq<char>)
    ensures
        ({
            let after = StoreView {
                certificates: s.certificates.insert(serial, reserved(serial, profile)),
                ..s
            };
            &&& !visible(after, serial)
            &&& after.certificates.dom().contains(serial)
            &&& forall|other: Seq<u8>|
                other != serial ==> (#[trigger] visible(after, other) <==> visible(s, other))
        }),
{
}

/// A second revocation changes nothing: the first date and reason stand.
pub proof fn first_revocation_counts(
    c: CertificateView,
    first: Timestamp,
    first_reason: i32,
    second: Timestamp,
    second_reason: i32,
)
    ensures
        revoked_line(revoked_line(c, first, first_reason), second, second_reason) == revoked_line(
            c,
            first,
            first_reason,
        ),
        c.status == CertificateStatus::Issued ==> revoked_line(
            c,
            first,
            first_reason,
        ).revoked_at == Some(first),
{
}

/// A revocation removes no serial number from those that were ever issued.
pub proof fn revocation_keeps_the_issued(
    s: StoreView,
    serial: Seq<u8>,
    at: Timestamp,
    reason: i32,
    other: Seq<u8>,
)
    requires
        visible(s, serial),
    ensures
        visible(
            StoreView {
                certificates: s.certificates.insert(
                    serial,
                    revoked_line(s.certificates[serial], at, reason),
                ),
                ..s
            },
            other,
        ) <==> visible(s, other),
{
}

/// A revocation list with a number above all others becomes the latest, and no
/// other is.
pub proof fn higher_number_becomes_latest(crls: Seq<CrlView>, c: CrlView, other: CrlView)
    requires
        forall|i: int| 0 <= i < crls.len() ==> (#[trigger] crls[i]).number < c.number,
    ensures
        is_latest(c, crls.push(c)),
        is_latest(other, crls.push(c)) ==> other == c,
{
    let after = crls.push(c);
    assert(after[crls.len() as int] == c);
    assert forall|j: int| 0 <= j < after.len() implies (#[trigger] after[j]).number <= c.number by {
        if j < crls.len() {
            assert(crls[j].number < c.number);
        }
    }
    if is_latest(other, after) {
        let i = choose|i: int|
            #![trigger after[i]]
            {
                &&& 0 <= i < after.len()
                &&& after[i] == other
                &&& forall|j: int| 0 <= j < after.len() ==> (#[trigger] after[j]).number
                    <= other.number
                &&& forall|j: int| i < j < after.len() ==> (#[trigger] after[j]).number
                    < other.number
            };
        assert(after[crls.len() as int].number <= other.number);
    }
}

/// The store in memory.
pub struct Memory {
    authorities: Table<Authority>,
    certificates: Table<Certificate>,
    requests: Table<Request>,
    by_fingerprint: Table<String>,
    crls: Vec<Crl>,
    next_crl: i64,
}

impl View for Memory {
    type V = StoreView;

    closed spec fn view(&self) -> StoreView {
        StoreView {
            authorities: text_map(self.authorities, |a: Authority| a@),
            certificates: self.certificates.map().map_values(|c: Certificate| c@),
            requests: text_map(self.requests, |r: Request| r@),
            by_fingerprint: text_map(self.by_fingerprint, |t: String| t@),
            crls: self.crls@.map_values(|c: Crl| c@),
            next_crl: self.next_crl as int,
        }
    }
}

impl Default for Memory {
    fn default() -> (r: Memory)
        ensures
            r.wf(),
            r@ == nothing(),
    {
        Memory::new()
    }
}

impl Memory {
    /// The tables are in order and agree with each other.
    pub closed spec fn wf(self) -> bool {
        &&& self.authorities.wf()
        &&& self.certificates.wf()
        &&& self.requests.wf()
        &&& self.by_fingerprint.wf()
        &&& forall|i: int|
            0 <= i < self.certificates.len() ==> (#[trigger] self.certificates.value_at(i)).serial@
                == self.certificates.key_at(i)
        &&& forall|i: int|
            0 <= i < self.requests.len() ==> self.requests.key_at(i) == vstd::utf8::encode_utf8(
                (#[trigger] self.requests.value_at(i)).transaction_id@,
            )
        &&& coherent(self@)
    }

    /// What every store satisfies.
    pub proof fn store_is_coherent(self)
        requires
            self.wf(),
        ensures
            coherent(self@),
    {
    }

    /// An empty store.
    pub fn new() -> (r: Memory)
        ensures
            r.wf(),
            r@ == nothing(),
    {
        let r = Memory {
            authorities: Table::new(),
            certificates: Table::new(),
            requests: Table::new(),
            by_fingerprint: Table::new(),
            crls: Vec::new(),
            next_crl: 0,
        };
        proof {
            assert(r@.authorities =~= Map::empty());
            assert(r@.certificates =~= Map::empty());
            assert(r@.requests =~= Map::empty());
            assert(r@.by_fingerprint =~= Map::empty());
            assert(r@.crls =~= seq![]);
        }
        r
    }

    /// Saves an authority under its name, in place of one with that name.
    pub fn save_authority(&mut self, a: Authority) -> (r: Result<(), StoreError>)
        requires
            old(self).wf(),
        ensures
            final(self).wf(),
            r is Ok,
            final(self)@ == (StoreView {
                authorities: old(self)@.authorities.insert(a@.name, a@),
                ..old(self)@
            }),
    {
        let ghost before = *self;
        let key = a.name.clone();
        self.authorities.insert(key.as_str().as_bytes(), a);
        proof {
            text_map_insert(
                before.authorities,
                self.authorities,
                |a: Authority| a@,
                a.name@,
                a,
            );
            assert(self@ =~= StoreView {
                authorities: before@.authorities.insert(a@.name, a@),
                ..before@
            });
        }
        Ok(())
    }

    /// The authority with a name.
    pub fn authority(&self, name: &str) -> (r: Result<Authority, StoreError>)
        requires
            self.wf(),
        ensures
            match r {
                Ok(a) => self@.authorities.dom().contains(name@) && a@
                    == self@.authorities[name@],
                Err(e) => !self@.authorities.dom().contains(name@) && e == StoreError::NotFound,
            },
    {
        match self.authorities.get(name.as_bytes()) {
            Some(a) => Ok(a.clone()),
            None => Err(StoreError::NotFound),
        }
    }

    /// Reserves a serial number for a profile, unless it is taken.
    pub fn reserve_serial(&mut self, serial: &Serial, profile: &str) -> (r: Result<
        (),
        StoreError,
    >)
        requires
            old(self).wf(),
        ensures
            final(self).wf(),
            match r {
                Ok(_) => {
                    &&& !old(self)@.certificates.dom().contains(serial@)
                    &&& final(self)@ == (StoreView {
                        certificates: old(self)@.certificates.insert(
                            serial@,
                            reserved(serial@, profile@),
                        ),
                        ..old(self)@
                    })
                },
                Err(e) => {
                    &&& old(self)@.certificates.dom().contains(serial@)
                    &&& e == StoreError::SerialTaken
                    &&& final(self)@ == old(self)@
                },
            },
    {
        if self.certificates.get(serial.as_slice()).is_some() {
            return Err(StoreError::SerialTaken);
        }
        let line = Certificate {
            serial: copy_of(serial.as_slice()),
            profile: profile.to_owned(),
            subject_dn: String::new(),
            issuer_dn: String::new(),
            not_before: Timestamp::epoch(),
            not_after: Timestamp::epoch(),
            der: Vec::new(),
            status: CertificateStatus::Reserved,
            revoked_at: None,
            revocation_reason: 0,
            request_transaction_id: String::new(),
        };
        proof {
            assert(line@ =~= reserved(serial@, profile@));
        }
        self.put_line(serial.as_slice(), line);
        Ok(())
    }

    fn put_line(&mut self, serial: &[u8], line: Certificate)
        requires
            old(self).wf(),
            line.serial@ == serial@,
        ensures
            final(self).wf(),
            final(self)@ == (StoreView {
                certificates: old(self)@.certificates.insert(serial@, line@),
                ..old(self)@
            }),
    {
        let ghost before = *self;
        self.certificates.insert(serial, line);
        proof {
            let after = *self;
            assert(after@.certificates =~= before@.certificates.insert(serial@, line@));
            assert(after@ =~= StoreView {
                certificates: before@.certificates.insert(serial@, line@),
                ..before@
            });
            after.certificates.ascends();
            before.certificates.ascends();
            assert forall|i: int| 0 <= i < after.certificates.len() implies (
            #[trigger] after.certificates.value_at(i)).serial@ == after.certificates.key_at(i) by {
                let k = after.certificates.key_at(i);
                assert(after.certificates.map()[k] == after.certificates.value_at(i));
                if k != serial@ {
                    assert(before.certificates.map().dom().contains(k));
                    assert(before@.certificates[k] == after.certificates.value_at(i)@);
                }
            }
        }
    }

    /// Completes the line of a reserved serial number.
    pub fn save_certificate(&mut self, c: Certificate) -> (r: Result<(), StoreError>)
        requires
            old(self).wf(),
        ensures
            final(self).wf(),
            match r {
                Ok(_) => {
                    &&& old(self)@.certificates.dom().contains(c@.serial)
                    &&& old(self)@.certificates[c@.serial].status == CertificateStatus::Reserved
                    &&& final(self)@ == (StoreView {
                        certificates: old(self)@.certificates.insert(c@.serial, c@),
                        ..old(self)@
                    })
                },
                Err(e) => {
                    &&& e == (if old(self)@.certificates.dom().contains(c@.serial) {
                        StoreError::Conflict
                    } else {
                        StoreError::NotFound
                    })
                    &&& visible(old(self)@, c@.serial) || !old(self)@.certificates.dom().contains(
                        c@.serial,
                    )
                    &&& final(self)@ == old(self)@
                },
            },
    {
        match self.certificates.get(c.serial.as_slice()) {
            None => return Err(StoreError::NotFound),
            Some(existing) => if existing.status != CertificateStatus::Reserved {
                return Err(StoreError::Conflict);
            },
        }
        let key = copy_of(c.serial.as_slice());
        self.put_line(key.as_slice(), c);
        Ok(())
    }

    /// The certificate with a serial number; what is only reserved is not
    /// found.
    pub fn certificate(&self, serial: &Serial) -> (r: Result<Certificate, StoreError>)
        requires
            self.wf(),
        ensures
            match r {
                Ok(c) => visible(self@, serial@) && c@ == self@.certificates[serial@],
                Err(e) => !visible(self@, serial@) && e == StoreError::NotFound,
            },
    {
        match self.certificates.get(serial.as_slice()) {
            Some(c) => if c.status != CertificateStatus::Reserved {
                Ok(c.clone())
            } else {
                Err(StoreError::NotFound)
            },
            None => Err(StoreError::NotFound),
        }
    }

    /// Revokes a certificate. The first revocation counts: a later one changes
    /// neither the date nor the reason.
    pub fn revoke(&mut self, serial: &Serial, at: Timestamp, reason: i32) -> (r: Result<
        (),
        StoreError,
    >)
        requires
            old(self).wf(),
        ensures
            final(self).wf(),
            match r {
                Ok(_) => {
                    &&& visible(old(self)@, serial@)
                    &&& final(self)@ == (StoreView {
                        certificates: old(self)@.certificates.insert(
                            serial@,
                            revoked_line(old(self)@.certificates[serial@], at, reason),
                        ),
                        ..old(self)@
                    })
                },
                Err(e) => {
                    &&& !visible(old(self)@, serial@)
                    &&& e == StoreError::NotFound
                    &&& final(self)@ == old(self)@
                },
            },
    {
        let mut line = match self.certificates.get(serial.as_slice()) {
            None => return Err(StoreError::NotFound),
            Some(c) => c.clone(),
        };
        if line.status == CertificateStatus::Reserved {
            return Err(StoreError::NotFound);
        }
        if line.status == CertificateStatus::Revoked {
            proof {
                assert(self@.certificates =~= self@.certificates.insert(
                    serial@,
                    self@.certificates[serial@],
                ));
            }
            return Ok(());
        }
        let ghost issued = line@;
        line.status = CertificateStatus::Revoked;
        line.revoked_at = Some(at);
        line.revocation_reason = reason;
        proof {
            assert(self@.certificates[serial@] == issued);
            assert(line@ =~= revoked_line(issued, at, reason));
        }
        self.put_line(serial.as_slice(), line);
        Ok(())
    }
}

/// Which lines of the register are wanted.
enum LineFilter<'a> {
    Active { subject_dn: &'a str, now: Timestamp },
    Revoked { now: Timestamp, grace: Duration },
    Signed,
}

/// Issued or revoked.
pub open spec fn signed() -> spec_fn(CertificateView) -> bool {
    |c: CertificateView| c.status != CertificateStatus::Reserved
}

impl<'a> LineFilter<'a> {
    closed spec fn keep(self) -> spec_fn(CertificateView) -> bool {
        match self {
            LineFilter::Active { subject_dn, now } => active(subject_dn@, now),
            LineFilter::Revoked { now, grace } => listed_as_revoked(now, grace),
            LineFilter::Signed => signed(),
        }
    }

    closed spec fn addable(self, c: CertificateView) -> bool {
        self matches LineFilter::Revoked { now, grace } ==> c.status == CertificateStatus::Revoked
            ==> i128::MIN <= c.not_after.nanos + grace.nanos <= i128::MAX
    }

    fn keeps(&self, c: &Certificate) -> (r: bool)
        requires
            self.addable(c@),
        ensures
            r == (self.keep())(c@),
    {
        match self {
            LineFilter::Active { subject_dn, now } => c.status == CertificateStatus::Issued
                && str_eq(c.subject_dn.as_str(), subject_dn) && now.nanos < c.not_after.nanos,
            LineFilter::Revoked { now, grace } => c.status == CertificateStatus::Revoked
                && now.nanos <= c.not_after.nanos + grace.nanos,
            LineFilter::Signed => c.status != CertificateStatus::Reserved,
        }
    }
}

/// The lines that satisfy a condition, in their order.
spec fn kept(lines: Seq<CertificateView>, keep: spec_fn(CertificateView) -> bool) -> Seq<
    CertificateView,
>
    decreases lines.len(),
{
    if lines.len() == 0 {
        seq![]
    } else if keep(lines.last()) {
        kept(lines.drop_last(), keep).push(lines.last())
    } else {
        kept(lines.drop_last(), keep)
    }
}

proof fn kept_in_order(lines: Seq<CertificateView>, keep: spec_fn(CertificateView) -> bool)
    requires
        by_serial(lines),
    ensures
        by_serial(kept(lines, keep)),
        forall|c: CertificateView| #[trigger]
            kept(lines, keep).contains(c) <==> lines.contains(c) && keep(c),
    decreases lines.len(),
{
    if lines.len() > 0 {
        let rest = lines.drop_last();
        let last = lines.last();
        assert forall|i: int, j: int| 0 <= i < j < rest.len() implies lex_less(
            (#[trigger] rest[i]).serial,
            (#[trigger] rest[j]).serial,
        ) by {
            assert(lex_less(lines[i].serial, lines[j].serial));
        }
        kept_in_order(rest, keep);
        let before = kept(rest, keep);
        let after = kept(lines, keep);
        assert forall|c: CertificateView| #[trigger] after.contains(c) <==> lines.contains(c)
            && keep(c) by {
            if lines.contains(c) {
                let k = choose|k: int| 0 <= k < lines.len() && lines[k] == c;
                if k < rest.len() {
                    assert(rest[k] == c);
                    assert(rest.contains(c));
                    if keep(c) {
                        assert(before.contains(c));
                        let m = choose|m: int| 0 <= m < before.len() && before[m] == c;
                        assert(after[m] == c);
                    }
                } else if keep(c) {
                    assert(after[before.len() as int] == c);
                }
            }
            if after.contains(c) {
                let m = choose|m: int| 0 <= m < after.len() && after[m] == c;
                if m < before.len() {
                    assert(before[m] == c);
                    assert(before.contains(c));
                    assert(rest.contains(c));
                    let k = choose|k: int| 0 <= k < rest.len() && rest[k] == c;
                    assert(lines[k] == c);
                } else {
                    assert(lines[lines.len() - 1] == c);
                }
            }
        }
        assert forall|i: int, j: int| 0 <= i < j < after.len() implies lex_less(
            (#[trigger] after[i]).serial,
            (#[trigger] after[j]).serial,
        ) by {
            assert(after[i] == before[i]);
            if j < before.len() {
                assert(after[j] == before[j]);
                assert(lex_less(before[i].serial, before[j].serial));
            } else {
                assert(before.contains(before[i]));
                assert(rest.contains(before[i]));
                let k = choose|k: int| 0 <= k < rest.len() && rest[k] == before[i];
                assert(lex_less(lines[k].serial, lines[lines.len() - 1].serial));
            }
        }
    }
}

impl Memory {
    closed spec fn lines(self) -> Seq<CertificateView> {
        Seq::new(self.certificates.len(), |i: int| self.certificates.value_at(i)@)
    }

    proof fn lines_are_the_register(self)
        requires
            self.wf(),
        ensures
            by_serial(self.lines()),
            forall|c: CertificateView| #[trigger]
                self.lines().contains(c) <==> self@.certificates.dom().contains(c.serial)
                    && self@.certificates[c.serial] == c,
    {
        self.certificates.ascends();
        let t = self.certificates;
        assert forall|i: int, j: int| 0 <= i < j < self.lines().len() implies lex_less(
            (#[trigger] self.lines()[i]).serial,
            (#[trigger] self.lines()[j]).serial,
        ) by {
            assert(t.value_at(i).serial@ == t.key_at(i));
            assert(t.value_at(j).serial@ == t.key_at(j));
            assert(lex_less(t.key_at(i), t.key_at(j)));
        }
        assert forall|c: CertificateView| #[trigger] self.lines().contains(c) <==> (
        self@.certificates.dom().contains(c.serial) && self@.certificates[c.serial] == c) by {
            if self.lines().contains(c) {
                let i = choose|i: int| 0 <= i < self.lines().len() && self.lines()[i] == c;
                assert(t.value_at(i).serial@ == t.key_at(i));
                assert(t.map().dom().contains(t.key_at(i)));
            }
            if self@.certificates.dom().contains(c.serial) && self@.certificates[c.serial] == c {
                let i = t.position(c.serial);
                assert(t.has(c.serial));
                assert(self.lines()[i] == c);
            }
        }
    }

    fn select(&self, filter: LineFilter) -> (r: Vec<Certificate>)
        requires
            self.wf(),
            forall|k: Seq<u8>| #[trigger]
                self@.certificates.dom().contains(k) ==> filter.addable(self@.certificates[k]),
        ensures
            lists_lines(line_views(r@), self@, filter.keep()),
    {
        let ghost all = self.lines();
        let ghost keep = filter.keep();
        proof {
            self.lines_are_the_register();
            kept_in_order(all, keep);
        }
        let mut out: Vec<Certificate> = Vec::new();
        let mut i: usize = 0;
        assert(line_views(out@) =~= kept(all.take(0), keep));
        while i < self.certificates.count()
            invariant
                self.wf(),
                all == self.lines(),
                keep == filter.keep(),
                i <= self.certificates.len(),
                line_views(out@) == kept(all.take(i as int), keep),
                forall|k: Seq<u8>| #[trigger]
                    self@.certificates.dom().contains(k) ==> filter.addable(
                        self@.certificates[k],
                    ),
            decreases self.certificates.len() - i,
        {
            let ghost before = out@;
            let c = self.certificates.value(i);
            proof {
                self.lines_are_the_register();
                assert(all[i as int] == c@);
                assert(all.contains(c@));
                assert(self@.certificates.dom().contains(c@.serial));
                assert(all.take(i + 1).drop_last() =~= all.take(i as int));
                assert(all.take(i + 1).last() == c@);
            }
            if filter.keeps(c) {
                let copy = c.clone();
                out.push(copy);
                proof {
                    assert(line_views(out@) =~= line_views(before).push(c@));
                }
            }
            i += 1;
        }
        proof {
            assert(all.take(all.len() as int) =~= all);
        }
        out
    }

    /// The certificates that are issued for a subject and not expired, by
    /// serial number.
    pub fn active_by_subject(&self, subject_dn: &str, now: Timestamp) -> (r: Result<
        Vec<Certificate>,
        StoreError,
    >)
        requires
            self.wf(),
        ensures
            r matches Ok(list) && lists_lines(
                line_views(list@),
                self@,
                active(subject_dn@, now),
            ),
    {
        Ok(self.select(LineFilter::Active { subject_dn, now }))
    }

    /// The certificates that a revocation list carries, by serial number: an
    /// expired one leaves it once the grace is over (RFC 5280 §5).
    pub fn revoked(&self, now: Timestamp, grace: Duration) -> (r: Result<
        Vec<Certificate>,
        StoreError,
    >)
        requires
            self.wf(),
            forall|k: Seq<u8>| #[trigger]
                self@.certificates.dom().contains(k) ==> self@.certificates[k].status
                    == CertificateStatus::Revoked ==> crate::clock::MIN_TIMESTAMP_NANOS
                    <= self@.certificates[k].not_after.nanos + grace.nanos
                    <= crate::clock::MAX_TIMESTAMP_NANOS,
        ensures
            r matches Ok(list) && lists_lines(
                line_views(list@),
                self@,
                listed_as_revoked(now, grace),
            ),
    {
        Ok(self.select(LineFilter::Revoked { now, grace }))
    }

    /// Every serial number ever issued, revoked or not, without limit of time,
    /// in ascending order; never one that is only reserved.
    pub fn issued_serials(&self) -> (r: Result<Vec<Serial>, StoreError>)
        requires
            self.wf(),
        ensures
            r matches Ok(list) && lists_issued(crate::x509::byte_views(list@), self@),
    {
        let lines = self.select(LineFilter::Signed);
        let ghost views = line_views(lines@);
        let mut out: Vec<Serial> = Vec::new();
        let mut i: usize = 0;
        while i < lines.len()
            invariant
                i <= lines@.len(),
                out@.len() == i,
                forall|k: int| 0 <= k < i ==> (#[trigger] out@[k])@ == lines@[k]@.serial,
            decreases lines.len() - i,
        {
            out.push(copy_of(lines[i].serial.as_slice()));
            i += 1;
        }
        proof {
            let serials = crate::x509::byte_views(out@);
            assert(serials.len() == views.len());
            assert(forall|k: int|
                0 <= k < views.len() ==> #[trigger] serials[k] == views[k].serial);
            assert forall|i: int, j: int| 0 <= i < j < serials.len() implies lex_less(
                #[trigger] serials[i],
                #[trigger] serials[j],
            ) by {
                assert(lex_less(views[i].serial, views[j].serial));
            }
            self.store_is_coherent();
            assert forall|s: Seq<u8>| #[trigger] serials.contains(s) <==> visible(self@, s) by {
                if serials.contains(s) {
                    let k = choose|k: int| 0 <= k < serials.len() && serials[k] == s;
                    assert(views.contains(views[k]));
                }
                if visible(self@, s) {
                    let c = self@.certificates[s];
                    assert(views.contains(c));
                    let k = choose|k: int| 0 <= k < views.len() && views[k] == c;
                    assert(serials[k] == s);
                }
            }
        }
        Ok(out)
    }
}

/// The serial numbers of the certificates that are issued or revoked, each
/// once, in ascending order.
pub open spec fn lists_issued(serials: Seq<Seq<u8>>, s: StoreView) -> bool {
    &&& forall|i: int, j: int|
        0 <= i < j < serials.len() ==> lex_less(#[trigger] serials[i], #[trigger] serials[j])
    &&& forall|serial: Seq<u8>| #[trigger] serials.contains(serial) <==> visible(s, serial)
}

impl Memory {
    /// Records a new request, unless its fingerprint or its transaction is
    /// known.
    pub fn create_request(&mut self, r: Request) -> (res: Result<(), StoreError>)
        requires
            old(self).wf(),
        ensures
            final(self).wf(),
            match res {
                Ok(_) => {
                    &&& !old(self)@.by_fingerprint.dom().contains(r@.csr_fingerprint)
                    &&& !old(self)@.requests.dom().contains(r@.transaction_id)
                    &&& final(self)@ == (StoreView {
                        requests: old(self)@.requests.insert(r@.transaction_id, r@),
                        by_fingerprint: old(self)@.by_fingerprint.insert(
                            r@.csr_fingerprint,
                            r@.transaction_id,
                        ),
                        ..old(self)@
                    })
                },
                Err(e) => {
                    &&& old(self)@.by_fingerprint.dom().contains(r@.csr_fingerprint) || old(
                        self,
                    )@.requests.dom().contains(r@.transaction_id)
                    &&& e == StoreError::Conflict
                    &&& final(self)@ == old(self)@
                },
            },
    {
        if self.by_fingerprint.get(r.csr_fingerprint.as_str().as_bytes()).is_some()
            || self.requests.get(r.transaction_id.as_str().as_bytes()).is_some() {
            return Err(StoreError::Conflict);
        }
        let ghost before = *self;
        self.by_fingerprint.insert(
            r.csr_fingerprint.as_str().as_bytes(),
            r.transaction_id.clone(),
        );
        let key = r.transaction_id.clone();
        self.requests.insert(key.as_str().as_bytes(), r);
        proof {
            text_map_insert(
                before.by_fingerprint,
                self.by_fingerprint,
                |t: String| t@,
                r.csr_fingerprint@,
                r.transaction_id,
            );
            text_map_insert(
                before.requests,
                self.requests,
                |r: Request| r@,
                r.transaction_id@,
                r,
            );
            assert(self@ =~= StoreView {
                requests: before@.requests.insert(r@.transaction_id, r@),
                by_fingerprint: before@.by_fingerprint.insert(
                    r@.csr_fingerprint,
                    r@.transaction_id,
                ),
                ..before@
            });
            requests_stay_keyed(before.requests, self.requests, r);
        }
        Ok(())
    }

    /// The request with a fingerprint.
    pub fn request_by_fingerprint(&self, fingerprint: &str) -> (r: Result<Request, StoreError>)
        requires
            self.wf(),
        ensures
            match r {
                Ok(q) => self@.by_fingerprint.dom().contains(fingerprint@) && q@
                    == self@.requests[self@.by_fingerprint[fingerprint@]],
                Err(e) => !self@.by_fingerprint.dom().contains(fingerprint@) && e
                    == StoreError::NotFound,
            },
    {
        match self.by_fingerprint.get(fingerprint.as_bytes()) {
            None => Err(StoreError::NotFound),
            Some(id) => {
                assert(self@.by_fingerprint.dom().contains(fingerprint@));
                assert(self@.by_fingerprint[fingerprint@] == id@);
                self.request_by_transaction_id(id.as_str())
            },
        }
    }

    /// The request with a transaction.
    pub fn request_by_transaction_id(&self, transaction_id: &str) -> (r: Result<
        Request,
        StoreError,
    >)
        requires
            self.wf(),
        ensures
            match r {
                Ok(q) => self@.requests.dom().contains(transaction_id@) && q@
                    == self@.requests[transaction_id@],
                Err(e) => !self@.requests.dom().contains(transaction_id@) && e
                    == StoreError::NotFound,
            },
    {
        match self.requests.get(transaction_id.as_bytes()) {
            Some(q) => Ok(q.clone()),
            None => Err(StoreError::NotFound),
        }
    }

    /// Replaces a request, if it is in the state from which it is to change.
    pub fn update_request(&mut self, r: Request, from: RequestState) -> (res: Result<
        (),
        StoreError,
    >)
        requires
            old(self).wf(),
        ensures
            final(self).wf(),
            match res {
                Ok(_) => {
                    &&& old(self)@.requests.dom().contains(r@.transaction_id)
                    &&& old(self)@.requests[r@.transaction_id].state == from
                    &&& final(self)@ == (StoreView {
                        requests: old(self)@.requests.insert(r@.transaction_id, r@),
                        ..old(self)@
                    })
                },
                Err(e) => {
                    &&& final(self)@ == old(self)@
                    &&& if old(self)@.requests.dom().contains(r@.transaction_id) {
                        e == StoreError::Conflict && old(self)@.requests[r@.transaction_id].state
                            != from
                    } else {
                        e == StoreError::NotFound
                    }
                },
            },
    {
        match self.requests.get(r.transaction_id.as_str().as_bytes()) {
            None => return Err(StoreError::NotFound),
            Some(existing) => if existing.state != from {
                return Err(StoreError::Conflict);
            },
        }
        let ghost before = *self;
        let key = r.transaction_id.clone();
        self.requests.insert(key.as_str().as_bytes(), r);
        proof {
            text_map_insert(
                before.requests,
                self.requests,
                |r: Request| r@,
                r.transaction_id@,
                r,
            );
            assert(self@ =~= StoreView {
                requests: before@.requests.insert(r@.transaction_id, r@),
                ..before@
            });
            requests_stay_keyed(before.requests, self.requests, r);
        }
        Ok(())
    }

    /// Gives the next number for a revocation list.
    pub fn next_crl_number(&mut self) -> (r: Result<i64, StoreError>)
        requires
            old(self).wf(),
            old(self)@.next_crl < i64::MAX,
        ensures
            final(self).wf(),
            r matches Ok(n) && n == old(self)@.next_crl + 1,
            final(self)@ == (StoreView { next_crl: old(self)@.next_crl + 1, ..old(self)@ }),
    {
        self.next_crl = self.next_crl + 1;
        Ok(self.next_crl)
    }

    /// Saves a revocation list.
    pub fn save_crl(&mut self, c: Crl) -> (r: Result<(), StoreError>)
        requires
            old(self).wf(),
        ensures
            final(self).wf(),
            r is Ok,
            final(self)@ == (StoreView { crls: old(self)@.crls.push(c@), ..old(self)@ }),
    {
        let ghost before = *self;
        self.crls.push(c);
        proof {
            assert(self@.crls =~= before@.crls.push(c@));
        }
        Ok(())
    }

    /// The revocation list with the highest number.
    pub fn latest_crl(&self) -> (r: Result<Crl, StoreError>)
        requires
            self.wf(),
        ensures
            match r {
                Ok(c) => is_latest(c@, self@.crls),
                Err(e) => self@.crls.len() == 0 && e == StoreError::NotFound,
            },
    {
        if self.crls.is_empty() {
            return Err(StoreError::NotFound);
        }
        let ghost all = self@.crls;
        let mut best: usize = 0;
        let mut i: usize = 1;
        while i < self.crls.len()
            invariant
                all == self@.crls,
                all.len() == self.crls@.len(),
                best < i <= self.crls@.len(),
                forall|j: int| 0 <= j < i ==> (#[trigger] all[j]).number <= all[best as int].number,
                forall|j: int|
                    best < j < i ==> (#[trigger] all[j]).number < all[best as int].number,
            decreases self.crls.len() - i,
        {
            assert(all[i as int] == self.crls@[i as int]@);
            assert(all[best as int] == self.crls@[best as int]@);
            if self.crls[i].number >= self.crls[best].number {
                best = i;
            }
            i += 1;
        }
        let c = self.crls[best].clone();
        assert(all[best as int] == c@);
        Ok(c)
    }
}

proof fn requests_stay_keyed(a: Table<Request>, b: Table<Request>, r: Request)
    requires
        a.wf(),
        b.wf(),
        b.map() == a.map().insert(vstd::utf8::encode_utf8(r.transaction_id@), r),
        forall|i: int|
            0 <= i < a.len() ==> a.key_at(i) == vstd::utf8::encode_utf8(
                (#[trigger] a.value_at(i)).transaction_id@,
            ),
    ensures
        forall|i: int|
            0 <= i < b.len() ==> b.key_at(i) == vstd::utf8::encode_utf8(
                (#[trigger] b.value_at(i)).transaction_id@,
            ),
{
    a.ascends();
    b.ascends();
    assert forall|i: int| 0 <= i < b.len() implies b.key_at(i) == vstd::utf8::encode_utf8(
        (#[trigger] b.value_at(i)).transaction_id@,
    ) by {
        let k = b.key_at(i);
        assert(b.map()[k] == b.value_at(i));
        if k != vstd::utf8::encode_utf8(r.transaction_id@) {
            assert(a.map().dom().contains(k));
            let j = a.position(k);
            assert(a.key_at(j) == k);
            assert(a.value_at(j) == b.value_at(i));
        }
    }
}

proof fn older_transitive(a: RequestView, b: RequestView, c: RequestView)
    requires
        older(a, b),
        older(b, c),
    ensures
        older(a, c),
{
    if text_less(a.transaction_id, b.transaction_id) && text_less(
        b.transaction_id,
        c.transaction_id,
    ) {
        crate::order::text_transitive(a.transaction_id, b.transaction_id, c.transaction_id);
    }
}

fn is_older(a: &Request, b: &Request) -> (r: bool)
    ensures
        r == older(a@, b@),
{
    a.created_at.nanos < b.created_at.nanos || (a.created_at.nanos == b.created_at.nanos
        && str_less(a.transaction_id.as_str(), b.transaction_id.as_str()))
}

/// Adds a request to a list that keeps the oldest first.
fn insert_by_age(list: &mut Vec<Request>, q: Request)
    requires
        oldest_first(request_views(old(list)@)),
        forall|i: int|
            0 <= i < old(list)@.len() ==> (#[trigger] old(list)@[i])@.transaction_id
                != q@.transaction_id,
    ensures
        oldest_first(request_views(final(list)@)),
        forall|x: RequestView| #[trigger]
            request_views(final(list)@).contains(x) <==> request_views(old(list)@).contains(x) || x
                == q@,
{
    let ghost before = request_views(list@);
    let ghost new = q@;
    let mut p: usize = 0;
    while p < list.len() && is_older(&list[p], &q)
        invariant
            p <= list@.len(),
            before == request_views(list@),
            forall|k: int| 0 <= k < p ==> older(#[trigger] before[k], q@),
        decreases list.len() - p,
    {
        p += 1;
    }
    proof {
        if p < list@.len() {
            assert(list@[p as int]@.transaction_id != new.transaction_id);
            crate::order::text_trichotomy(before[p as int].transaction_id, new.transaction_id);
            assert(older(new, before[p as int]));
        }
    }
    list.insert(p, q);
    proof {
        let after = request_views(list@);
        assert(after =~= before.insert(p as int, new));
        assert forall|i: int, j: int| 0 <= i < j < after.len() implies older(
            #[trigger] after[i],
            #[trigger] after[j],
        ) by {
            let oi = if i < p { i } else { i - 1 };
            let oj = if j < p { j } else { j - 1 };
            if i == p {
                if oj > p {
                    assert(older(before[p as int], before[oj]));
                    older_transitive(new, before[p as int], before[oj]);
                }
            } else if j != p {
                assert(older(before[oi], before[oj]));
            }
        }
        assert forall|x: RequestView| #[trigger] after.contains(x) <==> before.contains(x) || x
            == new by {
            if before.contains(x) {
                let k = choose|k: int| 0 <= k < before.len() && before[k] == x;
                assert(after[if k < p { k } else { k + 1 }] == x);
            }
            if x == new {
                assert(after[p as int] == x);
            }
            if after.contains(x) {
                let k = choose|k: int| 0 <= k < after.len() && after[k] == x;
                if k != p {
                    assert(before[if k < p { k } else { k - 1 }] == x);
                }
            }
        }
    }
}

impl Memory {
    /// The request at a position of the table.
    closed spec fn request_at(self, i: int) -> RequestView {
        self.requests.value_at(i)@
    }

    proof fn requests_have_positions(self)
        requires
            self.wf(),
        ensures
            forall|i: int|
                0 <= i < self.requests.len() ==> self@.requests.dom().contains(
                    (#[trigger] self.request_at(i)).transaction_id,
                ) && self@.requests[self.request_at(i).transaction_id] == self.request_at(i),
            forall|k: Seq<char>| #[trigger]
                self@.requests.dom().contains(k) ==> exists|i: int|
                    0 <= i < self.requests.len() && #[trigger] self.request_at(i)
                        == self@.requests[k],
            forall|i: int, j: int|
                0 <= i < j < self.requests.len() ==> (#[trigger] self.request_at(
                    i,
                )).transaction_id != (#[trigger] self.request_at(j)).transaction_id,
    {
        let t = self.requests;
        t.ascends();
        assert forall|i: int| 0 <= i < t.len() implies self@.requests.dom().contains(
            (#[trigger] self.request_at(i)).transaction_id,
        ) && self@.requests[self.request_at(i).transaction_id] == self.request_at(i) by {
            assert(t.key_at(i) == vstd::utf8::encode_utf8(t.value_at(i).transaction_id@));
            assert(t.map().dom().contains(t.key_at(i)));
        }
        assert forall|k: Seq<char>| #[trigger] self@.requests.dom().contains(k) implies exists|
            i: int,
        |
            0 <= i < t.len() && #[trigger] self.request_at(i) == self@.requests[k] by {
            let key = vstd::utf8::encode_utf8(k);
            assert(t.has(key));
            let i = t.position(key);
            assert(self.request_at(i) == self@.requests[k]);
        }
        assert forall|i: int, j: int| 0 <= i < j < t.len() implies (#[trigger] self.request_at(
            i,
        )).transaction_id != (#[trigger] self.request_at(j)).transaction_id by {
            assert(t.key_at(i) == vstd::utf8::encode_utf8(t.value_at(i).transaction_id@));
            assert(t.key_at(j) == vstd::utf8::encode_utf8(t.value_at(j).transaction_id@));
            assert(lex_less(t.key_at(i), t.key_at(j)));
            crate::order::lex_irreflexive(t.key_at(i));
        }
    }

    /// The requests in a state, all of them for `None`, the oldest first.
    pub fn requests(&self, state: Option<RequestState>) -> (r: Result<Vec<Request>, StoreError>)
        requires
            self.wf(),
        ensures
            r matches Ok(list) && lists_requests(request_views(list@), self@, state),
    {
        let mut out: Vec<Request> = Vec::new();
        let mut i: usize = 0;
        proof {
            self.requests_have_positions();
        }
        while i < self.requests.count()
            invariant
                self.wf(),
                i <= self.requests.len(),
                oldest_first(request_views(out@)),
                forall|x: RequestView| #[trigger]
                    request_views(out@).contains(x) <==> exists|k: int|
                        0 <= k < i && #[trigger] self.request_at(k) == x && (state is None
                            || x.state == state->0),
            decreases self.requests.len() - i,
        {
            let q = self.requests.value(i);
            let wanted = match state {
                None => true,
                Some(s) => q.state == s,
            };
            let ghost before = request_views(out@);
            proof {
                self.requests_have_positions();
                assert(self.request_at(i as int) == q@);
            }
            if wanted {
                let copy = q.clone();
                proof {
                    assert forall|n: int| 0 <= n < out@.len() implies (
                    #[trigger] out@[n])@.transaction_id != copy@.transaction_id by {
                        assert(before[n] == out@[n]@);
                        assert(before.contains(before[n]));
                        let k = choose|k: int|
                            0 <= k < i && #[trigger] self.request_at(k) == before[n] && (state
                                is None || before[n].state == state->0);
                        assert(self.request_at(k).transaction_id != self.request_at(
                            i as int,
                        ).transaction_id);
                    }
                }
                insert_by_age(&mut out, copy);
            }
            proof {
                let after = request_views(out@);
                assert forall|x: RequestView| #[trigger] after.contains(x) <==> exists|k: int|
                    0 <= k < i + 1 && #[trigger] self.request_at(k) == x && (state is None
                        || x.state == state->0) by {
                    if after.contains(x) {
                        if wanted && x == q@ {
                            assert(self.request_at(i as int) == x);
                        } else {
                            assert(before.contains(x));
                        }
                    }
                    if exists|k: int|
                        0 <= k < i + 1 && #[trigger] self.request_at(k) == x && (state is None
                            || x.state == state->0) {
                        let k = choose|k: int|
                            0 <= k < i + 1 && #[trigger] self.request_at(k) == x && (state
                                is None || x.state == state->0);
                        if k < i {
                            assert(before.contains(x));
                        }
                    }
                }
            }
            i += 1;
        }
        proof {
            let list = request_views(out@);
            assert forall|r: RequestView| #[trigger] list.contains(r) <==> (
            self@.requests.dom().contains(r.transaction_id) && self@.requests[r.transaction_id]
                == r && (state is None || r.state == state->0)) by {
                if self@.requests.dom().contains(r.transaction_id)
                    && self@.requests[r.transaction_id] == r && (state is None || r.state
                    == state->0) {
                    let k = choose|k: int|
                        0 <= k < self.requests.len() && #[trigger] self.request_at(k)
                            == self@.requests[r.transaction_id];
                    assert(self.request_at(k) == r);
                }
            }
        }
        Ok(out)
    }
}

} // verus!
