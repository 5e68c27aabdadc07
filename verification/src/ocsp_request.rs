//! Requests for the status of certificates (RFC 6960 §4.1), read from their
//! encoding.
//!
//! ```text
//! OCSPRequest ::= SEQUENCE { tbsRequest, optionalSignature [0] OPTIONAL }
//! TBSRequest  ::= SEQUENCE { version [0] DEFAULT v1, requestorName [1] OPTIONAL,
//!                            requestList SEQUENCE OF Request,
//!                            requestExtensions [2] OPTIONAL }
//! Request     ::= SEQUENCE { reqCert CertID, singleRequestExtensions [0] OPTIONAL }
//! CertID      ::= SEQUENCE { hashAlgorithm, issuerNameHash OCTET STRING,
//!                            issuerKeyHash OCTET STRING, serialNumber INTEGER }
//! ```
//!
//! The signature, the requestor and the extensions are passed over unread.
use vstd::prelude::*;

use crate::asn1::{
    copy_of, encode_tlv, part_of, read_tlv, split, split_of_tlv, tlv, MAX_CONTENT,
    TAG_INTEGER, TAG_OCTET_STRING, TAG_SEQUENCE,
};
use crate::x509::{algorithm_of, read_algorithm};

verus! {

/// `[0]`, around an encoding.
pub const TAG_CONTEXT_0: u8 = 0xa0;

/// `[1]`, around an encoding.
pub const TAG_CONTEXT_1: u8 = 0xa1;

/// `[2]`, around an encoding.
pub const TAG_CONTEXT_2: u8 = 0xa2;

/// The longest content of a serial number.
pub const MAX_SERIAL: usize = 21;

/// Which certificate is asked about: its issuer, by the digests of its name and
/// of its key, and its serial number.
#[derive(Debug)]
pub struct CertId {
    /// The whole encoding.
    pub encoding: Vec<u8>,
    /// The digest algorithm, in dotted notation.
    pub algorithm: String,
    pub name_hash: Vec<u8>,
    pub key_hash: Vec<u8>,
    /// The content bytes of the serial number.
    pub serial: Vec<u8>,
}

#[verifier::ext_equal]
pub ghost struct CertIdView {
    pub encoding: Seq<u8>,
    pub algorithm: Seq<char>,
    pub name_hash: Seq<u8>,
    pub key_hash: Seq<u8>,
    pub serial: Seq<u8>,
}

impl View for CertId {
    type V = CertIdView;

    open spec fn view(&self) -> CertIdView {
        CertIdView {
            encoding: self.encoding@,
            algorithm: self.algorithm@,
            name_hash: self.name_hash@,
            key_hash: self.key_hash@,
            serial: self.serial@,
        }
    }
}

/// The views of a list of identifiers.
pub open spec fn id_views(list: Seq<CertId>) -> Seq<CertIdView> {
    list.map_values(|c: CertId| c@)
}

/// The shortest content of an INTEGER.
pub open spec fn integer_content(c: Seq<u8>) -> bool {
    &&& c.len() > 0
    &&& c.len() > 1 ==> !(c[0] == 0 && c[1] < 128)
    &&& c.len() > 1 ==> !(c[0] == 255 && c[1] >= 128)
}

/// The content of a serial number.
pub open spec fn serial_content(c: Seq<u8>) -> bool {
    integer_content(c) && c.len() <= MAX_SERIAL
}

/// The identifier with a content, where the content is one.
pub open spec fn cert_id_of(content: Seq<u8>) -> Option<CertIdView> {
    match split(content) {
        Some((TAG_SEQUENCE, alg, r1)) => match algorithm_of(tlv(TAG_SEQUENCE, alg)) {
            Some(algorithm) => match split(r1) {
                Some((TAG_OCTET_STRING, name_hash, r2)) => match split(r2) {
                    Some((TAG_OCTET_STRING, key_hash, r3)) => match split(r3) {
                        Some((TAG_INTEGER, serial, r4)) => if r4.len() == 0 && serial_content(
                            serial,
                        ) {
                            Some(
                                CertIdView {
                                    encoding: tlv(TAG_SEQUENCE, content),
                                    algorithm,
                                    name_hash,
                                    key_hash,
                                    serial,
                                },
                            )
                        } else {
                            None
                        },
                        _ => None,
                    },
                    _ => None,
                },
                _ => None,
            },
            None => None,
        },
        _ => None,
    }
}

/// Nothing, or one encoding with a tag.
pub open spec fn at_most_one(rest: Seq<u8>, tag: u8) -> bool {
    rest.len() == 0 || (split(rest) matches Some((t, _, end)) && t == tag && end.len() == 0)
}

/// The identifier in an entry of the list, where the content is an entry.
pub open spec fn entry_of(content: Seq<u8>) -> Option<CertIdView> {
    match split(content) {
        Some((TAG_SEQUENCE, id, rest)) => if at_most_one(rest, TAG_CONTEXT_0) {
            cert_id_of(id)
        } else {
            None
        },
        _ => None,
    }
}

/// The identifiers in a list, in order, where every entry is one.
pub open spec fn entries_of(list: Seq<u8>) -> Option<Seq<CertIdView>>
    decreases list.len(),
{
    if list.len() == 0 {
        Some(seq![])
    } else {
        match split(list) {
            Some((TAG_SEQUENCE, content, rest)) => if rest.len() < list.len() {
                match (entry_of(content), entries_of(rest)) {
                    (Some(id), Some(others)) => Some(seq![id] + others),
                    _ => None,
                }
            } else {
                None
            },
            _ => None,
        }
    }
}

/// What follows an encoding with a tag, where there is one.
pub open spec fn passed(bytes: Seq<u8>, tag: u8) -> Seq<u8> {
    match split(bytes) {
        Some((t, _, rest)) => if t == tag {
            rest
        } else {
            bytes
        },
        None => bytes,
    }
}

/// The version, where it is written out, is the first.
pub open spec fn version_holds(bytes: Seq<u8>) -> bool {
    split(bytes) matches Some((t, v, _)) ==> t == TAG_CONTEXT_0 ==> v == seq![2u8, 1u8, 0u8]
}

/// The identifiers in the part of a request that may be signed.
pub open spec fn tbs_ids_of(content: Seq<u8>) -> Option<Seq<CertIdView>> {
    if version_holds(content) {
        match split(passed(passed(content, TAG_CONTEXT_0), TAG_CONTEXT_1)) {
            Some((TAG_SEQUENCE, list, rest)) => if at_most_one(rest, TAG_CONTEXT_2) {
                entries_of(list)
            } else {
                None
            },
            _ => None,
        }
    } else {
        None
    }
}

/// The identifiers that a request asks about, in order, where the bytes encode
/// a request and nothing more.
pub open spec fn ids_asked(bytes: Seq<u8>) -> Option<Seq<CertIdView>> {
    match split(bytes) {
        Some((TAG_SEQUENCE, body, after)) => if after.len() == 0 {
            match split(body) {
                Some((TAG_SEQUENCE, tbs, rest)) => if at_most_one(rest, TAG_CONTEXT_0) {
                    tbs_ids_of(tbs)
                } else {
                    None
                },
                _ => None,
            }
        } else {
            None
        },
        _ => None,
    }
}

/// A tag, a content and what follows.
struct Piece {
    tag: u8,
    content: Vec<u8>,
    rest: Vec<u8>,
}

fn first_piece(bytes: &[u8]) -> (r: Option<Piece>)
    ensures
        match r {
            Some(p) => split(bytes@) == Some((p.tag, p.content@, p.rest@)) && p.rest@.len()
                < bytes@.len(),
            None => split(bytes@) is None,
        },
{
    assert(bytes@.skip(0) =~= bytes@);
    match read_tlv(bytes, 0) {
        None => None,
        Some(e) => {
            let content = part_of(bytes, e.from, e.to);
            let rest = part_of(bytes, e.to, bytes.len());
            assert(rest@ =~= bytes@.skip(e.to as int));
            Some(Piece { tag: e.tag, content, rest })
        },
    }
}

/// The content and what follows of a first encoding with a tag.
fn tagged_piece(bytes: &[u8], tag: u8) -> (r: Option<(Vec<u8>, Vec<u8>)>)
    ensures
        match r {
            Some((content, rest)) => split(bytes@) == Some((tag, content@, rest@)) && rest@.len()
                < bytes@.len(),
            None => match split(bytes@) {
                Some((t, _, _)) => t != tag,
                None => true,
            },
        },
{
    match first_piece(bytes) {
        Some(p) => if p.tag == tag {
            Some((p.content, p.rest))
        } else {
            None
        },
        None => None,
    }
}

fn is_at_most_one(rest: &[u8], tag: u8) -> (r: bool)
    ensures
        r == at_most_one(rest@, tag),
{
    if rest.len() == 0 {
        return true;
    }
    match tagged_piece(rest, tag) {
        Some((_, end)) => end.len() == 0,
        None => false,
    }
}

fn is_serial_content(c: &[u8]) -> (r: bool)
    ensures
        r == serial_content(c@),
{
    if c.len() == 0 || c.len() > MAX_SERIAL {
        return false;
    }
    if c.len() > 1 {
        if c[0] == 0 && c[1] < 128 {
            return false;
        }
        if c[0] == 255 && c[1] >= 128 {
            return false;
        }
    }
    true
}

fn read_cert_id(content: &[u8]) -> (r: Option<CertId>)
    ensures
        match r {
            Some(id) => cert_id_of(content@) == Some(id@),
            None => cert_id_of(content@) is None,
        },
{
    let (alg, r1) = tagged_piece(content, TAG_SEQUENCE)?;
    let algorithm = read_algorithm(encode_tlv(TAG_SEQUENCE, alg.as_slice()).as_slice())?;
    let (name_hash, r2) = tagged_piece(r1.as_slice(), TAG_OCTET_STRING)?;
    let (key_hash, r3) = tagged_piece(r2.as_slice(), TAG_OCTET_STRING)?;
    let (serial, r4) = tagged_piece(r3.as_slice(), TAG_INTEGER)?;
    if r4.len() != 0 || !is_serial_content(serial.as_slice()) {
        return None;
    }
    let encoding = encode_tlv(TAG_SEQUENCE, content);
    Some(CertId { encoding, algorithm, name_hash, key_hash, serial })
}

fn read_entry(content: &[u8]) -> (r: Option<CertId>)
    ensures
        match r {
            Some(id) => entry_of(content@) == Some(id@),
            None => entry_of(content@) is None,
        },
{
    let (id, rest) = tagged_piece(content, TAG_SEQUENCE)?;
    if !is_at_most_one(rest.as_slice(), TAG_CONTEXT_0) {
        return None;
    }
    read_cert_id(id.as_slice())
}

fn read_entries(list: &[u8]) -> (r: Option<Vec<CertId>>)
    ensures
        match r {
            Some(ids) => entries_of(list@) == Some(id_views(ids@)),
            None => entries_of(list@) is None,
        },
{
    let mut out: Vec<CertId> = Vec::new();
    let mut rest = copy_of(list);
    proof {
        assert(id_views(out@) =~= seq![]);
    }
    while rest.len() > 0
        invariant
            match entries_of(rest@) {
                Some(others) => entries_of(list@) == Some(id_views(out@) + others),
                None => entries_of(list@) is None,
            },
        decreases rest@.len(),
    {
        let (content, after) = match tagged_piece(rest.as_slice(), TAG_SEQUENCE) {
            Some(p) => p,
            None => return None,
        };
        let id = match read_entry(content.as_slice()) {
            Some(id) => id,
            None => return None,
        };
        let ghost before = id_views(out@);
        out.push(id);
        proof {
            assert(id_views(out@) =~= before.push(id@));
            match entries_of(after@) {
                Some(others) => {
                    assert(before + (seq![id@] + others) =~= before.push(id@) + others);
                },
                None => {},
            }
        }
        rest = after;
    }
    assert(id_views(out@) + Seq::<CertIdView>::empty() =~= id_views(out@));
    Some(out)
}

/// What follows an encoding with a tag, where there is one.
fn pass(bytes: &[u8], tag: u8) -> (r: Vec<u8>)
    ensures
        r@ == passed(bytes@, tag),
{
    match tagged_piece(bytes, tag) {
        Some((_, rest)) => rest,
        None => copy_of(bytes),
    }
}

fn read_tbs(content: &[u8]) -> (r: Option<Vec<CertId>>)
    ensures
        match r {
            Some(ids) => tbs_ids_of(content@) == Some(id_views(ids@)),
            None => tbs_ids_of(content@) is None,
        },
{
    match tagged_piece(content, TAG_CONTEXT_0) {
        Some((v, _)) => {
            if !(v.len() == 3 && v[0] == 2 && v[1] == 1 && v[2] == 0) {
                assert(v@ != seq![2u8, 1u8, 0u8]);
                return None;
            }
            assert(v@ =~= seq![2u8, 1u8, 0u8]);
        },
        None => {},
    }
    let unversioned = pass(content, TAG_CONTEXT_0);
    let anonymous = pass(unversioned.as_slice(), TAG_CONTEXT_1);
    let (list, rest) = tagged_piece(anonymous.as_slice(), TAG_SEQUENCE)?;
    if !is_at_most_one(rest.as_slice(), TAG_CONTEXT_2) {
        return None;
    }
    read_entries(list.as_slice())
}

/// Reads a request: the identifiers that it asks about, in order, or nothing
/// where the bytes are no request.
pub fn read_ids_asked(bytes: &[u8]) -> (r: Option<Vec<CertId>>)
    ensures
        match r {
            Some(ids) => ids_asked(bytes@) == Some(id_views(ids@)),
            None => ids_asked(bytes@) is None,
        },
{
    let (body, after) = tagged_piece(bytes, TAG_SEQUENCE)?;
    if after.len() != 0 {
        return None;
    }
    let (tbs, rest) = tagged_piece(body.as_slice(), TAG_SEQUENCE)?;
    if !is_at_most_one(rest.as_slice(), TAG_CONTEXT_0) {
        return None;
    }
    read_tbs(tbs.as_slice())
}

/// The content of the identifier with an algorithm, two digests and a serial
/// number.
pub open spec fn id_content(
    algorithm_der: Seq<u8>,
    name_hash: Seq<u8>,
    key_hash: Seq<u8>,
    serial: Seq<u8>,
) -> Seq<u8> {
    algorithm_der + tlv(TAG_OCTET_STRING, name_hash) + tlv(TAG_OCTET_STRING, key_hash) + tlv(
        TAG_INTEGER,
        serial,
    )
}

/// The request that asks about one certificate, with no signature, no requestor
/// and no extension.
pub open spec fn plain_request(id: Seq<u8>) -> Seq<u8> {
    tlv(
        TAG_SEQUENCE,
        tlv(TAG_SEQUENCE, tlv(TAG_SEQUENCE, tlv(TAG_SEQUENCE, tlv(TAG_SEQUENCE, id)))),
    )
}

proof fn read_back(tag: u8, content: Seq<u8>)
    requires
        content.len() <= MAX_CONTENT,
    ensures
        split(tlv(tag, content)) == Some((tag, content, Seq::<u8>::empty())),
{
    split_of_tlv(tag, content, seq![]);
    assert(tlv(tag, content) + Seq::<u8>::empty() =~= tlv(tag, content));
}

proof fn longer(tag: u8, content: Seq<u8>)
    ensures
        content.len() + 2 <= tlv(tag, content).len(),
{
}

proof fn id_is_read_back(
    alg: Seq<u8>,
    dotted: Seq<char>,
    name_hash: Seq<u8>,
    key_hash: Seq<u8>,
    serial: Seq<u8>,
)
    requires
        algorithm_of(tlv(TAG_SEQUENCE, alg)) == Some(dotted),
        serial_content(serial),
        id_content(tlv(TAG_SEQUENCE, alg), name_hash, key_hash, serial).len() <= MAX_CONTENT,
    ensures
        ({
            let content = id_content(tlv(TAG_SEQUENCE, alg), name_hash, key_hash, serial);
            cert_id_of(content) == Some(
                CertIdView {
                    encoding: tlv(TAG_SEQUENCE, content),
                    algorithm: dotted,
                    name_hash,
                    key_hash,
                    serial,
                },
            )
        }),
{
    let content = id_content(tlv(TAG_SEQUENCE, alg), name_hash, key_hash, serial);
    let t4 = tlv(TAG_INTEGER, serial);
    let t3 = tlv(TAG_OCTET_STRING, key_hash);
    let t2 = tlv(TAG_OCTET_STRING, name_hash);
    let t1 = tlv(TAG_SEQUENCE, alg);
    assert(content =~= t1 + (t2 + (t3 + t4)));
    longer(TAG_SEQUENCE, alg);
    longer(TAG_OCTET_STRING, name_hash);
    longer(TAG_OCTET_STRING, key_hash);
    split_of_tlv(TAG_SEQUENCE, alg, t2 + (t3 + t4));
    split_of_tlv(TAG_OCTET_STRING, name_hash, t3 + t4);
    split_of_tlv(TAG_OCTET_STRING, key_hash, t4);
    read_back(TAG_INTEGER, serial);
}

proof fn nest_is_read_back(content: Seq<u8>, id: CertIdView)
    requires
        cert_id_of(content) == Some(id),
        plain_request(content).len() <= MAX_CONTENT,
    ensures
        ids_asked(plain_request(content)) == Some(seq![id]),
{
    let e0 = tlv(TAG_SEQUENCE, content);
    let e1 = tlv(TAG_SEQUENCE, e0);
    let e2 = tlv(TAG_SEQUENCE, e1);
    let e3 = tlv(TAG_SEQUENCE, e2);
    longer(TAG_SEQUENCE, content);
    longer(TAG_SEQUENCE, e0);
    longer(TAG_SEQUENCE, e1);
    longer(TAG_SEQUENCE, e2);
    longer(TAG_SEQUENCE, e3);
    read_back(TAG_SEQUENCE, content);
    assert(entry_of(e0) == Some(id));
    read_back(TAG_SEQUENCE, e0);
    one_entry(e0, id);
    read_back(TAG_SEQUENCE, e1);
    assert(tbs_ids_of(e2) == Some(seq![id]));
    read_back(TAG_SEQUENCE, e2);
    read_back(TAG_SEQUENCE, e3);
}

proof fn one_entry(content: Seq<u8>, id: CertIdView)
    requires
        entry_of(content) == Some(id),
        split(tlv(TAG_SEQUENCE, content)) == Some((TAG_SEQUENCE, content, Seq::<u8>::empty())),
    ensures
        entries_of(tlv(TAG_SEQUENCE, content)) == Some(seq![id]),
{
    longer(TAG_SEQUENCE, content);
    assert(entries_of(Seq::<u8>::empty()) == Some(Seq::<CertIdView>::empty()));
    assert(seq![id] + Seq::<CertIdView>::empty() =~= seq![id]);
}

/// A request about one certificate is read as that: the digests and the serial
/// number that were written are those that are answered for.
pub proof fn plain_request_is_read_back(
    alg: Seq<u8>,
    dotted: Seq<char>,
    name_hash: Seq<u8>,
    key_hash: Seq<u8>,
    serial: Seq<u8>,
)
    requires
        algorithm_of(tlv(TAG_SEQUENCE, alg)) == Some(dotted),
        serial_content(serial),
        plain_request(
            id_content(tlv(TAG_SEQUENCE, alg), name_hash, key_hash, serial),
        ).len() <= MAX_CONTENT,
    ensures
        ({
            let content = id_content(tlv(TAG_SEQUENCE, alg), name_hash, key_hash, serial);
            ids_asked(plain_request(content)) == Some(
                seq![
                    CertIdView {
                        encoding: tlv(TAG_SEQUENCE, content),
                        algorithm: dotted,
                        name_hash,
                        key_hash,
                        serial,
                    },
                ],
            )
        }),
{
    let content = id_content(tlv(TAG_SEQUENCE, alg), name_hash, key_hash, serial);
    assert(content.len() <= plain_request(content).len()) by {
        let e0 = tlv(TAG_SEQUENCE, content);
        let e1 = tlv(TAG_SEQUENCE, e0);
        let e2 = tlv(TAG_SEQUENCE, e1);
        longer(TAG_SEQUENCE, content);
        longer(TAG_SEQUENCE, e0);
        longer(TAG_SEQUENCE, e1);
        longer(TAG_SEQUENCE, e2);
        longer(TAG_SEQUENCE, tlv(TAG_SEQUENCE, e2));
    }
    id_is_read_back(alg, dotted, name_hash, key_hash, serial);
    nest_is_read_back(content, cert_id_of(content)->0);
}

} // verus!
