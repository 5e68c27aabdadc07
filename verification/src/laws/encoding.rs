//! What the encodings promise, byte by byte, and what is read from requests.
use vstd::prelude::*;

use crate::asn1::{
    base256, concatenated, length_bytes, split, split_of_tlv, tlv, tlv_of_split, MAX_CONTENT,
};
use crate::extensions::{
    access_description, access_encodable, access_list, access_value, authority_key_value, basic_constraints_value, crl_number_value,
    distribution_point_value, dns_name_value, is_extension, is_extension_if, is_ia5, key_usage_value,
    policy_value, purposes_value, serials_value, unsigned_content, CaError,
};
use crate::crypto::{arcs_content, base128, continued, oid_content};
use crate::ocsp_request::{
    at_most_one, cert_id_of, entries_of, entry_of, ids_asked, passed, serial_content, tbs_ids_of,
    CertIdView,
};
use crate::x509::{algorithm_of, Extension};

verus! {

/// A length below 128 is one byte; a longer one is announced by the number of
/// its bytes, which follow, most significant first.
pub proof fn lengths_are_shortest(tag: u8, content: Seq<u8>)
    ensures
        content.len() < 128 ==> tlv(tag, content) == seq![tag, content.len() as u8] + content,
        128 <= content.len() < 256 ==> tlv(tag, content) == seq![tag, 0x81u8, content.len() as u8]
            + content,
        256 <= content.len() < 65536 ==> tlv(tag, content) == seq![
            tag,
            0x82u8,
            (content.len() / 256) as u8,
            (content.len() % 256) as u8,
        ] + content,
{
    let n = content.len();
    reveal_with_fuel(base256, 4);
    if n < 128 {
        assert(tlv(tag, content) =~= seq![tag, n as u8] + content);
    } else if n < 256 {
        assert(n / 256 == 0);
        assert(base256(n) =~= seq![n as u8]);
        assert(tlv(tag, content) =~= seq![tag, 0x81u8, n as u8] + content);
    } else if n < 65536 {
        assert(n / 256 / 256 == 0);
        assert(base256(n) =~= seq![(n / 256) as u8, (n % 256) as u8]);
        assert(length_bytes(n) =~= seq![0x82u8, (n / 256) as u8, (n % 256) as u8]);
        assert(tlv(tag, content) =~= seq![tag, 0x82u8, (n / 256) as u8, (n % 256) as u8]
            + content);
    }
}

proof fn short(tag: u8, content: Seq<u8>)
    requires
        content.len() < 128,
    ensures
        tlv(tag, content) == seq![tag, content.len() as u8] + content,
{
    lengths_are_shortest(tag, content);
}

/// Encodings one after the other are those of the first list, then those of the
/// second.
pub proof fn encodings_of_both(a: Seq<Seq<u8>>, b: Seq<Seq<u8>>, one: Seq<u8>)
    ensures
        concatenated(a + b) == concatenated(a) + concatenated(b),
        concatenated(seq![one]) == one,
    decreases b.len(),
{
    reveal_with_fuel(concatenated, 2);
    let single = seq![one];
    assert(single.drop_last() =~= seq![]);
    assert(concatenated(single) =~= one);
    if b.len() == 0 {
        assert(a + b =~= a);
        assert(concatenated(a) + concatenated(b) =~= concatenated(a));
    } else {
        assert((a + b).drop_last() =~= a + b.drop_last());
        encodings_of_both(a, b.drop_last(), one);
        assert(concatenated(a + b) =~= concatenated(a) + concatenated(b));
    }
}

/// An identifier is read from its own parts: the algorithm, the two digests and
/// the serial number that stand in it, one after the other and with nothing
/// after them; the number is in its shortest form and of at most 21 bytes.
pub proof fn identifier_is_read_from_its_parts(content: Seq<u8>, id: CertIdView) -> (alg: Seq<u8>)
    requires
        cert_id_of(content) == Some(id),
    ensures
        content == tlv(0x30, alg) + tlv(0x04, id.name_hash) + tlv(0x04, id.key_hash) + tlv(
            0x02,
            id.serial,
        ),
        algorithm_of(tlv(0x30, alg)) == Some(id.algorithm),
        id.encoding == tlv(0x30, content),
        1 <= id.serial.len() <= 21,
        id.serial.len() > 1 ==> !(id.serial[0] == 0 && id.serial[1] < 128),
        id.serial.len() > 1 ==> !(id.serial[0] == 255 && id.serial[1] >= 128),
{
    tlv_of_split(content);
    let (_, alg, r1) = split(content)->0;
    tlv_of_split(r1);
    let (_, name_hash, r2) = split(r1)->0;
    tlv_of_split(r2);
    let (_, key_hash, r3) = split(r2)->0;
    tlv_of_split(r3);
    let (_, serial, r4) = split(r3)->0;
    assert(r4 =~= seq![]);
    four_parts(
        tlv(0x30, alg),
        tlv(0x04, name_hash),
        tlv(0x04, key_hash),
        tlv(0x02, serial),
        r4,
    );
    alg
}

proof fn four_parts(a: Seq<u8>, b: Seq<u8>, c: Seq<u8>, d: Seq<u8>, e: Seq<u8>)
    requires
        e.len() == 0,
    ensures
        a + (b + (c + (d + e))) == a + b + c + d,
{
    assert(a + (b + (c + (d + e))) =~= a + b + c + d);
}

/// The entries of a list are read one by one, in order; one that cannot be read
/// spoils the list.
pub proof fn entries_are_read_one_by_one(entry: Seq<u8>, rest: Seq<u8>)
    requires
        entry.len() <= MAX_CONTENT,
    ensures
        entries_of(seq![]) == Some(Seq::<CertIdView>::empty()),
        entries_of(tlv(0x30, entry) + rest) == match (entry_of(entry), entries_of(rest)) {
            (Some(id), Some(others)) => Some(seq![id] + others),
            _ => None,
        },
{
    split_of_tlv(0x30, entry, rest);
    assert((tlv(0x30, entry) + rest).len() > rest.len());
}

/// An entry is an identifier, and at most its own extensions after it.
pub proof fn entry_is_an_identifier(id: Seq<u8>, extensions: Seq<u8>)
    requires
        id.len() <= MAX_CONTENT,
        extensions.len() <= MAX_CONTENT,
    ensures
        entry_of(tlv(0x30, id)) == cert_id_of(id),
        entry_of(tlv(0x30, id) + tlv(0xa0, extensions)) == cert_id_of(id),
{
    split_of_tlv(0x30, id, seq![]);
    assert(tlv(0x30, id) + Seq::<u8>::empty() =~= tlv(0x30, id));
    split_of_tlv(0x30, id, tlv(0xa0, extensions));
    split_of_tlv(0xa0, extensions, seq![]);
    assert(tlv(0xa0, extensions) + Seq::<u8>::empty() =~= tlv(0xa0, extensions));
}

/// A request is its part that may be signed and at most a signature after it;
/// with anything after the request, or before its end, it is none.
pub proof fn request_is_one_encoding(tbs: Seq<u8>, signature: Seq<u8>, more: Seq<u8>)
    requires
        (tlv(0x30, tbs) + tlv(0xa0, signature)).len() <= MAX_CONTENT,
    ensures
        ids_asked(tlv(0x30, tlv(0x30, tbs))) == tbs_ids_of(tbs),
        ids_asked(tlv(0x30, tlv(0x30, tbs) + tlv(0xa0, signature))) == tbs_ids_of(tbs),
        more.len() > 0 ==> ids_asked(tlv(0x30, tlv(0x30, tbs)) + more) is None,
{
    let inner = tlv(0x30, tbs);
    let signed = inner + tlv(0xa0, signature);
    assert(inner.len() <= signed.len());
    assert(tbs.len() + 2 <= inner.len());
    assert(signature.len() + 2 <= tlv(0xa0, signature).len());
    split_of_tlv(0x30, inner, seq![]);
    assert(tlv(0x30, inner) + Seq::<u8>::empty() =~= tlv(0x30, inner));
    split_of_tlv(0x30, inner, more);
    split_of_tlv(0x30, tbs, seq![]);
    assert(inner + Seq::<u8>::empty() =~= inner);
    split_of_tlv(0x30, signed, seq![]);
    assert(tlv(0x30, signed) + Seq::<u8>::empty() =~= tlv(0x30, signed));
    split_of_tlv(0x30, tbs, tlv(0xa0, signature));
    split_of_tlv(0xa0, signature, seq![]);
    assert(tlv(0xa0, signature) + Seq::<u8>::empty() =~= tlv(0xa0, signature));
}

/// The version must be the first where it is written out; the requestor and the
/// extensions are passed over.
pub proof fn version_is_the_first(
    version: Seq<u8>,
    requestor: Seq<u8>,
    list: Seq<u8>,
    extensions: Seq<u8>,
)
    requires
        version.len() <= MAX_CONTENT,
        requestor.len() <= MAX_CONTENT,
        list.len() <= MAX_CONTENT,
        extensions.len() <= MAX_CONTENT,
    ensures
        tbs_ids_of(tlv(0x30, list)) == entries_of(list),
        version == seq![2u8, 1, 0] ==> tbs_ids_of(
            tlv(0xa0, version) + (tlv(0xa1, requestor) + (tlv(0x30, list) + tlv(
                0xa2,
                extensions,
            ))),
        ) == entries_of(list),
        version != seq![2u8, 1, 0] ==> tbs_ids_of(
            tlv(0xa0, version) + (tlv(0xa1, requestor) + (tlv(0x30, list) + tlv(
                0xa2,
                extensions,
            ))),
        ) is None,
{
    let tail = tlv(0x30, list) + tlv(0xa2, extensions);
    let named = tlv(0xa1, requestor) + tail;
    split_of_tlv(0xa0, version, named);
    split_of_tlv(0xa1, requestor, tail);
    split_of_tlv(0x30, list, tlv(0xa2, extensions));
    split_of_tlv(0xa2, extensions, seq![]);
    assert(tlv(0xa2, extensions) + Seq::<u8>::empty() =~= tlv(0xa2, extensions));
    split_of_tlv(0x30, list, seq![]);
    assert(tlv(0x30, list) + Seq::<u8>::empty() =~= tlv(0x30, list));
}

/// `basicConstraints`, byte by byte.
pub proof fn basic_constraints_byte_by_byte(n: u8)
    requires
        n < 128,
    ensures
        basic_constraints_value(false, None) == seq![0x30u8, 0],
        basic_constraints_value(true, None) == seq![0x30u8, 3, 1, 1, 0xff],
        basic_constraints_value(true, Some(n)) == seq![0x30u8, 6, 1, 1, 0xff, 2, 1, n],
        basic_constraints_value(false, Some(n)) == seq![0x30u8, 3, 2, 1, n],
{
    let flag: Seq<u8> = seq![0xffu8];
    let number: Seq<u8> = seq![n];
    short(1, flag);
    short(2, number);
    let f: Seq<u8> = seq![1u8, 1, 0xff];
    let l: Seq<u8> = seq![2u8, 1, n];
    assert(tlv(1, flag) =~= f);
    assert(tlv(2, number) =~= l);
    short(0x30, seq![]);
    short(0x30, f);
    short(0x30, l);
    short(0x30, f + l);
    assert(basic_constraints_value(false, None) =~= seq![0x30u8, 0]);
    assert(f + Seq::<u8>::empty() =~= f);
    assert(Seq::<u8>::empty() + l =~= l);
    assert(Seq::<u8>::empty() + Seq::<u8>::empty() =~= Seq::<u8>::empty());
    assert(basic_constraints_value(true, None) =~= seq![0x30u8, 3, 1, 1, 0xff]);
    assert(basic_constraints_value(true, Some(n)) =~= seq![0x30u8, 6, 1, 1, 0xff, 2, 1, n]);
    assert(basic_constraints_value(false, Some(n)) =~= seq![0x30u8, 3, 2, 1, n]);
}

/// `keyUsage`, byte by byte: `digitalSignature` is the first bit of the first
/// byte, `keyCertSign` the sixth and `cRLSign` the seventh, and `decipherOnly`
/// the first bit of the second byte.
pub proof fn key_usage_byte_by_byte()
    ensures
        key_usage_value(1) == seq![3u8, 2, 7, 0x80],
        key_usage_value(2) == seq![3u8, 2, 6, 0x40],
        key_usage_value(3) == seq![3u8, 2, 6, 0xc0],
        key_usage_value(4) == seq![3u8, 2, 5, 0x20],
        key_usage_value(0x60) == seq![3u8, 2, 1, 0x06],
        key_usage_value(0x80) == seq![3u8, 2, 0, 0x01],
        key_usage_value(0x100) == seq![3u8, 3, 7, 0, 0x80],
{
    assert(key_usage_value(1) =~= seq![3u8, 2, 7, 0x80]);
    assert(key_usage_value(2) =~= seq![3u8, 2, 6, 0x40]);
    assert(key_usage_value(3) =~= seq![3u8, 2, 6, 0xc0]);
    assert(key_usage_value(4) =~= seq![3u8, 2, 5, 0x20]);
    assert(key_usage_value(0x60) =~= seq![3u8, 2, 1, 0x06]);
    assert(key_usage_value(0x80) =~= seq![3u8, 2, 0, 0x01]);
    assert(key_usage_value(0x100) =~= seq![3u8, 3, 7, 0, 0x80]);
}

/// The extensions that hold a name, an identifier of a key or a policy wrap it
/// in the tags that the standard gives, and change nothing of it.
pub proof fn names_and_keys_are_wrapped(key: Seq<u8>, text: Seq<char>, policy: Seq<u8>)
    ensures
        authority_key_value(key) == tlv(0x30, tlv(0x80, key)),
        dns_name_value(text) == tlv(0x30, tlv(0x82, vstd::utf8::encode_utf8(text))),
        distribution_point_value(text) == tlv(
            0x30,
            tlv(0x30, tlv(0xa0, tlv(0xa0, tlv(0x86, vstd::utf8::encode_utf8(text))))),
        ),
        policy_value(policy) == tlv(0x30, tlv(0x30, tlv(0x06, policy))),
{
}

/// The addresses of the issuer's certificate and of the responder are listed in
/// this order, each with its own identifier, where they are given.
pub proof fn addresses_are_listed(issuers: Seq<char>, responder: Seq<char>)
    ensures
        access_list(None, None).len() == 0,
        access_list(Some(issuers), None) == seq![("1.3.6.1.5.5.7.48.2"@, issuers)],
        access_list(None, Some(responder)) == seq![("1.3.6.1.5.5.7.48.1"@, responder)],
        access_list(Some(issuers), Some(responder)) == seq![
            ("1.3.6.1.5.5.7.48.2"@, issuers),
            ("1.3.6.1.5.5.7.48.1"@, responder),
        ],
        access_value(access_list(Some(issuers), None)) == tlv(
            0x30,
            tlv(
                0x30,
                tlv(0x06, seq![0x2bu8, 6, 1, 5, 5, 7, 0x30, 2]) + tlv(
                    0x86,
                    vstd::utf8::encode_utf8(issuers),
                ),
            ),
        ),
{
    assert(access_list(Some(issuers), None) =~= seq![("1.3.6.1.5.5.7.48.2"@, issuers)]);
    assert(access_list(None, Some(responder)) =~= seq![("1.3.6.1.5.5.7.48.1"@, responder)]);
    assert(access_list(Some(issuers), Some(responder)) =~= seq![
        ("1.3.6.1.5.5.7.48.2"@, issuers),
        ("1.3.6.1.5.5.7.48.1"@, responder),
    ]);
    crate::identifiers::ad_ca_issuers_is_known();
    let list = access_list(Some(issuers), None);
    let encoded = list.map_values(
        |d: (Seq<char>, Seq<char>)| crate::extensions::access_description(d),
    );
    let one = crate::extensions::access_description(("1.3.6.1.5.5.7.48.2"@, issuers));
    assert(encoded =~= seq![one]);
    encodings_of_both(seq![], seq![], one);
}

/// A serial number loses its leading zeros, and gets one back where it would
/// read as negative.
pub proof fn serial_numbers_are_unsigned(digits: Seq<u8>)
    requires
        digits.len() > 0,
        digits[0] != 0,
    ensures
        digits[0] < 128 ==> unsigned_content(digits) == digits,
        digits[0] >= 128 ==> unsigned_content(digits) == seq![0u8] + digits,
        unsigned_content(seq![0u8] + digits) == unsigned_content(digits),
        unsigned_content(seq![0u8]) == seq![0u8],
{
    let padded = seq![0u8] + digits;
    assert(padded.drop_first() =~= digits);
}

/// Serial numbers are listed one after the other, in their order.
pub proof fn serial_numbers_are_listed(a: Seq<u8>, b: Seq<u8>)
    ensures
        serials_value(seq![]) == seq![0x30u8, 0],
        serials_value(seq![a]) == tlv(0x30, tlv(0x02, unsigned_content(a))),
        serials_value(seq![a, b]) == tlv(
            0x30,
            tlv(0x02, unsigned_content(a)) + tlv(0x02, unsigned_content(b)),
        ),
{
    let x = tlv(0x02, unsigned_content(a));
    let y = tlv(0x02, unsigned_content(b));
    let none = crate::extensions::tagged(0x02, crate::extensions::serial_contents(seq![]));
    let one = crate::extensions::tagged(0x02, crate::extensions::serial_contents(seq![a]));
    let two = crate::extensions::tagged(0x02, crate::extensions::serial_contents(seq![a, b]));
    assert(none =~= seq![]);
    assert(one =~= seq![x]);
    assert(two =~= seq![x] + seq![y]);
    encodings_of_both(seq![], seq![], x);
    encodings_of_both(seq![], seq![], y);
    encodings_of_both(seq![x], seq![y], x);
    short(0x30, seq![]);
    assert(serials_value(seq![]) =~= seq![0x30u8, 0]);
}

/// The number of a revocation list is eight bytes, most significant first.
pub proof fn list_number_is_eight_bytes(n: u8)
    ensures
        crl_number_value(n as i64) == seq![2u8, 8, 0, 0, 0, 0, 0, 0, 0, n],
{
    reveal_with_fuel(crate::extensions::fixed_bytes, 9);
    reveal_with_fuel(crate::extensions::without_sign_padding, 2);
    let digits: Seq<u8> = seq![0u8, 0, 0, 0, 0, 0, 0, n];
    let bytes = crate::extensions::fixed_bytes(8, n as int);
    assert(n as int / 256 == 0 && n as int % 256 == n);
    assert(bytes =~= digits);
    short(2, digits);
    assert(tlv(2, digits) =~= seq![2u8, 8, 0, 0, 0, 0, 0, 0, 0, n]);
}

/// Bytes of a fixed number are the digits of a number in base 256.
pub proof fn fixed_bytes_are_digits(k: nat, high: int, low: u8)
    requires
        high >= 0,
    ensures
        crate::extensions::fixed_bytes(0, high).len() == 0,
        crate::extensions::fixed_bytes(k + 1, 256 * high + low) == crate::extensions::fixed_bytes(
            k,
            high,
        ).push(low),
{
    assert((256 * high + low) / 256 == high);
    assert((256 * high + low) % 256 == low);
}

/// What may follow is nothing, or one encoding with the tag, to the end.
pub proof fn at_most_one_is_one(rest: Seq<u8>, tag: u8, content: Seq<u8>)
    ensures
        at_most_one(seq![], tag),
        content.len() <= MAX_CONTENT ==> at_most_one(tlv(tag, content), tag),
        at_most_one(rest, tag) && rest.len() > 0 ==> exists|c: Seq<u8>|
            rest == #[trigger] tlv(tag, c),
{
    if content.len() <= MAX_CONTENT {
        split_of_tlv(tag, content, seq![]);
        assert(tlv(tag, content) + Seq::<u8>::empty() =~= tlv(tag, content));
    }
    if at_most_one(rest, tag) && rest.len() > 0 {
        tlv_of_split(rest);
        let (t, c, end) = split(rest)->0;
        assert(tlv(t, c) + end =~= tlv(tag, c));
    }
}

/// What is read as a request is one: an encoding to its end, of a part that may
/// be signed and at most a signature; what is read from it is read from that
/// part.
pub proof fn only_requests_are_read(bytes: Seq<u8>) -> (parts: (Seq<u8>, Seq<u8>))
    requires
        ids_asked(bytes) is Some,
    ensures
        bytes == tlv(0x30, tlv(0x30, parts.0) + parts.1),
        parts.1.len() > 0 ==> exists|c: Seq<u8>| parts.1 == #[trigger] tlv(0xa0, c),
        tbs_ids_of(parts.0) == ids_asked(bytes),
{
    tlv_of_split(bytes);
    let (_, body, after) = split(bytes)->0;
    assert(tlv(0x30, body) + after =~= tlv(0x30, body));
    tlv_of_split(body);
    let (_, tbs, rest) = split(body)->0;
    at_most_one_is_one(rest, 0xa0, seq![]);
    (tbs, rest)
}

/// What is read as an entry begins with an identifier, and has at most its own
/// extensions after it.
pub proof fn only_entries_are_read(content: Seq<u8>) -> (parts: (Seq<u8>, Seq<u8>))
    requires
        entry_of(content) is Some,
    ensures
        content == tlv(0x30, parts.0) + parts.1,
        parts.1.len() > 0 ==> exists|c: Seq<u8>| parts.1 == #[trigger] tlv(0xa0, c),
        cert_id_of(parts.0) == entry_of(content),
{
    tlv_of_split(content);
    let (_, id, rest) = split(content)->0;
    at_most_one_is_one(rest, 0xa0, seq![]);
    (id, rest)
}

/// What is read as a list begins with an entry, and what follows is a list.
pub proof fn only_lists_are_read(list: Seq<u8>) -> (parts: (Seq<u8>, Seq<u8>))
    requires
        entries_of(list) is Some,
        list.len() > 0,
    ensures
        list == tlv(0x30, parts.0) + parts.1,
        entry_of(parts.0) is Some,
        entries_of(parts.1) is Some,
        entries_of(list) == Some(seq![entry_of(parts.0)->0] + entries_of(parts.1)->0),
{
    tlv_of_split(list);
    let (_, content, rest) = split(list)->0;
    (content, rest)
}

/// A number below 128 is one byte; a larger one has a byte for each seven bits,
/// the high bit set in all but the last.
pub proof fn numbers_have_seven_bits_a_byte(high: nat, low: nat)
    requires
        low < 128,
    ensures
        base128(low) == seq![low as u8],
        high > 0 ==> base128(128 * high + low) == continued(high).push(low as u8),
        high > 0 ==> continued(128 * high + low) == continued(high).push((128 + low) as u8),
        0 < low ==> continued(low) == seq![(128 + low) as u8],
{
    reveal_with_fuel(continued, 2);
    assert(low / 128 == 0);
    assert(base128(low) =~= seq![low as u8]);
    if low > 0 {
        assert(continued(low) =~= seq![(128 + low) as u8]);
    }
    if high > 0 {
        assert((128 * high + low) / 128 == high);
        assert((128 * high + low) % 128 == low);
    }
}

/// An identifier is its first two numbers in one byte and the others one after
/// the other, where they fit in 39 bytes; its first number is at most two and its
/// second at most 39.
pub proof fn identifiers_are_their_numbers(arcs: Seq<nat>)
    requires
        arcs.len() > 0,
        forall|i: int| 0 <= i < arcs.len() ==> #[trigger] arcs[i] <= u32::MAX,
    ensures
        ({
            let content = oid_content(crate::identifiers::dotted(arcs));
            let others = arcs_content(arcs.skip(2));
            &&& arcs.len() < 2 ==> content is None
            &&& arcs.len() >= 2 && (arcs[0] > 2 || arcs[1] > 39) ==> content is None
            &&& arcs.len() >= 2 && arcs[0] <= 2 && arcs[1] <= 39 && others.len() <= 38 ==> content
                == Some(seq![(40 * arcs[0] + arcs[1]) as u8] + others)
            &&& arcs.len() >= 2 && others.len() > 38 ==> content is None
        }),
{
    crate::identifiers::dotted_is_read_back(arcs);
}

/// Numbers of an identifier are written one after the other.
pub proof fn numbers_are_written_in_order(arcs: Seq<nat>, n: nat)
    ensures
        arcs_content(seq![]).len() == 0,
        arcs_content(arcs.push(n)) == arcs_content(arcs) + base128(n),
{
    assert(arcs.push(n).drop_last() =~= arcs);
}

/// The purposes of a certificate are listed in their order, each by its
/// identifier.
pub proof fn purposes_are_listed(a: Seq<char>, b: Seq<char>)
    ensures
        purposes_value(seq![a]) == tlv(0x30, tlv(0x06, oid_content(a)->0)),
        purposes_value(seq![a, b]) == tlv(
            0x30,
            tlv(0x06, oid_content(a)->0) + tlv(0x06, oid_content(b)->0),
        ),
{
    let x = tlv(0x06, oid_content(a)->0);
    let y = tlv(0x06, oid_content(b)->0);
    let one = crate::extensions::tagged(0x06, crate::extensions::oid_contents(seq![a]));
    let two = crate::extensions::tagged(0x06, crate::extensions::oid_contents(seq![a, b]));
    assert(one =~= seq![x]);
    assert(two =~= seq![x] + seq![y]);
    encodings_of_both(seq![], seq![], x);
    encodings_of_both(seq![], seq![], y);
    encodings_of_both(seq![x], seq![y], x);
}

/// What can be encoded: names of ASCII alone, serial numbers of at most twenty
/// bytes, purposes that are identifiers.
pub proof fn what_can_be_encoded(text: Seq<char>, serials: Seq<Seq<u8>>, purposes: Seq<Seq<char>>)
    ensures
        is_ia5(text) <==> forall|i: int|
            0 <= i < text.len() ==> (#[trigger] text[i] as u32) <= 127,
        crate::extensions::serials_fit(serials) <==> forall|i: int|
            0 <= i < serials.len() ==> unsigned_content(#[trigger] serials[i]).len() <= 20,
        crate::extensions::all_oids(purposes) <==> forall|i: int|
            0 <= i < purposes.len() ==> oid_content(#[trigger] purposes[i]) is Some,
        MAX_CONTENT == 0xffff_ffff,
{
}

/// A serial number is an integer in its shortest form, of one to 21 bytes.
pub proof fn serial_numbers_are_shortest(c: Seq<u8>)
    ensures
        serial_content(c) <==> 1 <= c.len() <= 21 && (c.len() > 1 ==> !(c[0] == 0 && c[1] < 128)
            && !(c[0] == 255 && c[1] >= 128)),
{
}

/// The version, the requestor and the extensions may each be left out.
pub proof fn parts_may_be_left_out(
    version: Seq<u8>,
    requestor: Seq<u8>,
    list: Seq<u8>,
    extensions: Seq<u8>,
)
    requires
        version == seq![2u8, 1, 0],
        requestor.len() <= MAX_CONTENT,
        list.len() <= MAX_CONTENT,
        extensions.len() <= MAX_CONTENT,
    ensures
        tbs_ids_of(tlv(0xa0, version) + tlv(0x30, list)) == entries_of(list),
        tbs_ids_of(tlv(0xa1, requestor) + tlv(0x30, list)) == entries_of(list),
        tbs_ids_of(tlv(0x30, list) + tlv(0xa2, extensions)) == entries_of(list),
        tbs_ids_of(tlv(0xa0, version) + (tlv(0xa1, requestor) + tlv(0x30, list))) == entries_of(
            list,
        ),
{
    let l = tlv(0x30, list);
    let x = tlv(0xa2, extensions);
    split_of_tlv(0x30, list, seq![]);
    assert(l + Seq::<u8>::empty() =~= l);
    split_of_tlv(0x30, list, x);
    split_of_tlv(0xa2, extensions, seq![]);
    assert(x + Seq::<u8>::empty() =~= x);
    split_of_tlv(0xa0, version, l);
    split_of_tlv(0xa1, requestor, l);
    split_of_tlv(0xa0, version, tlv(0xa1, requestor) + l);
}

/// What is read as the part that may be signed holds a list, and at most
/// extensions after it; what is read from it is what the list asks about.
pub proof fn only_signed_parts_are_read(content: Seq<u8>) -> (parts: (Seq<u8>, Seq<u8>, Seq<u8>))
    requires
        tbs_ids_of(content) is Some,
    ensures
        content == parts.0 + (tlv(0x30, parts.1) + parts.2),
        parts.2.len() > 0 ==> exists|c: Seq<u8>| parts.2 == #[trigger] tlv(0xa2, c),
        entries_of(parts.1) == tbs_ids_of(content),
        parts.0.len() > 0 ==> parts.0[0] == 0xa0 || parts.0[0] == 0xa1,
{
    let first = passed(content, 0xa0);
    let second = passed(first, 0xa1);
    tlv_of_split(second);
    let (_, list, rest) = split(second)->0;
    at_most_one_is_one(rest, 0xa2, seq![]);
    let a = what_is_passed(content, 0xa0);
    let b = what_is_passed(first, 0xa1);
    assert(content =~= (a + b) + (tlv(0x30, list) + rest));
    if (a + b).len() > 0 {
        if a.len() > 0 {
            assert((a + b)[0] == a[0]);
        } else {
            assert((a + b)[0] == b[0]);
        }
    }
    (a + b, list, rest)
}

/// What is passed over is one encoding with the tag, or nothing.
proof fn what_is_passed(bytes: Seq<u8>, tag: u8) -> (before: Seq<u8>)
    ensures
        bytes == before + passed(bytes, tag),
        before.len() > 0 ==> before[0] == tag,
{
    assert(bytes =~= Seq::<u8>::empty() + bytes);
    match split(bytes) {
        Some((t, c, rest)) => {
            tlv_of_split(bytes);
            if t == tag {
                tlv(t, c)
            } else {
                Seq::empty()
            }
        },
        None => Seq::empty(),
    }
}

/// An extension that is built has its identifier, its criticality and its value;
/// where its value cannot be encoded there is an error.
pub proof fn extension_is_built_as_asked(
    r: Result<Extension, CaError>,
    encodable: bool,
    dotted: Seq<char>,
    critical: bool,
    value: Seq<u8>,
)
    requires
        is_extension_if(r, encodable, dotted, critical, value),
    ensures
        encodable ==> (r matches Ok(e) && e.critical == critical && e.value@ == value && e.oid@
            == oid_content(dotted)->0),
        !encodable ==> r is Err,
        is_extension(r, dotted, critical, value) ==> (r matches Ok(e) && e.critical == critical
            && e.value@ == value && e.oid@ == oid_content(dotted)->0),
{
}

/// Eight bits put together can be taken apart again.
proof fn bits_of_a_byte(a: int, b: int, c: int, d: int, e: int, f: int, g: int, h: int, m: int)
    requires
        0 <= a < 2 && 0 <= b < 2 && 0 <= c < 2 && 0 <= d < 2,
        0 <= e < 2 && 0 <= f < 2 && 0 <= g < 2 && 0 <= h < 2,
        m == a * 128 + b * 64 + c * 32 + d * 16 + e * 8 + f * 4 + g * 2 + h,
    ensures
        0 <= m < 256,
        m / 128 % 2 == a && m / 64 % 2 == b && m / 32 % 2 == c && m / 16 % 2 == d,
        m / 8 % 2 == e && m / 4 % 2 == f && m / 2 % 2 == g && m % 2 == h,
{
    assert(m / 128 == a);
    assert(m / 64 == a * 2 + b);
    assert(m / 32 == a * 4 + b * 2 + c);
    assert(m / 16 == a * 8 + b * 4 + c * 2 + d);
    assert(m / 8 == a * 16 + b * 8 + c * 4 + d * 2 + e);
    assert(m / 4 == a * 32 + b * 16 + c * 8 + d * 4 + e * 2 + f);
    assert(m / 2 == a * 64 + b * 32 + c * 16 + d * 8 + e * 4 + f * 2 + g);
}

/// The lowest bit becomes the highest, and so on.
pub proof fn bits_are_turned_round(b: int)
    requires
        0 <= b < 256,
    ensures
        ({
            let m = crate::extensions::mirrored(b) as int;
            &&& m / 128 % 2 == b % 2
            &&& m / 64 % 2 == b / 2 % 2
            &&& m / 32 % 2 == b / 4 % 2
            &&& m / 16 % 2 == b / 8 % 2
            &&& m / 8 % 2 == b / 16 % 2
            &&& m / 4 % 2 == b / 32 % 2
            &&& m / 2 % 2 == b / 64 % 2
            &&& m % 2 == b / 128 % 2
        }),
{
    let m = (b % 2) * 128 + (b / 2 % 2) * 64 + (b / 4 % 2) * 32 + (b / 8 % 2) * 16 + (b / 16 % 2)
        * 8 + (b / 32 % 2) * 4 + (b / 64 % 2) * 2 + (b / 128 % 2);
    bits_of_a_byte(
        b % 2,
        b / 2 % 2,
        b / 4 % 2,
        b / 8 % 2,
        b / 16 % 2,
        b / 32 % 2,
        b / 64 % 2,
        b / 128 % 2,
        m,
    );
}

/// One to eight usages are one byte of bits, after the number of bits that follow
/// the last usage; the ninth usage takes a second byte.
pub proof fn usages_take_one_byte_or_two(usages: u16)
    requires
        usages < 512,
    ensures
        0 < usages < 256 ==> key_usage_value(usages).len() == 4 && key_usage_value(usages)[0] == 3
            && key_usage_value(usages)[1] == 2 && key_usage_value(usages)[3]
            == crate::extensions::mirrored(usages as int),
        256 <= usages ==> key_usage_value(usages) == seq![
            3u8,
            3,
            7,
            crate::extensions::mirrored(usages - 256),
            0x80,
        ],
        0 < usages < 256 ==> ({
            let unused = key_usage_value(usages)[2];
            &&& unused == 0 <==> usages >= 128
            &&& unused == 1 <==> 64 <= usages < 128
            &&& unused == 2 <==> 32 <= usages < 64
            &&& unused == 3 <==> 16 <= usages < 32
            &&& unused == 4 <==> 8 <= usages < 16
            &&& unused == 5 <==> 4 <= usages < 8
            &&& unused == 6 <==> 2 <= usages < 4
            &&& unused == 7 <==> usages == 1
        }),
{
    let m = crate::extensions::mirrored(usages as int);
    let one: Seq<u8> = seq![crate::extensions::unused_bits(usages as int), m];
    short(3, one);
    let h = crate::extensions::mirrored(usages as int % 256);
    let two: Seq<u8> = seq![7u8, h, 0x80];
    short(3, two);
    if 256 <= usages {
        assert(usages as int % 256 == usages - 256);
        assert(key_usage_value(usages) =~= seq![3u8, 3, 7, h, 0x80]);
    }
}

/// A path length of 128 or more has a zero before it, so that it does not read
/// as negative.
pub proof fn long_paths_are_not_negative(n: u8)
    requires
        n >= 128,
    ensures
        basic_constraints_value(true, Some(n)) == seq![0x30u8, 7, 1, 1, 0xff, 2, 2, 0, n],
{
    let flag: Seq<u8> = seq![0xffu8];
    let number: Seq<u8> = seq![0u8, n];
    short(1, flag);
    short(2, number);
    let f: Seq<u8> = seq![1u8, 1, 0xff];
    let l: Seq<u8> = seq![2u8, 2, 0, n];
    assert(tlv(1, flag) =~= f);
    assert(tlv(2, number) =~= l);
    short(0x30, f + l);
    assert(basic_constraints_value(true, Some(n)) =~= seq![0x30u8, 7, 1, 1, 0xff, 2, 2, 0, n]);
}

/// A leading 0xff is dropped where the sign stays without it, and nothing else
/// is.
pub proof fn sign_padding_is_dropped(s: Seq<u8>)
    requires
        s.len() > 0,
    ensures
        s[0] >= 128 ==> crate::extensions::without_sign_padding(seq![0xffu8] + s)
            == crate::extensions::without_sign_padding(s),
        s[0] < 128 ==> crate::extensions::without_sign_padding(seq![0xffu8] + s) == seq![0xffu8]
            + s,
        s[0] != 0xff ==> crate::extensions::without_sign_padding(s) == s,
{
    assert((seq![0xffu8] + s).drop_first() =~= s);
}

/// The addresses of an authority are encoded one after the other, each a method
/// and a URI.
pub proof fn addresses_are_encoded_in_order(
    list: Seq<(Seq<char>, Seq<char>)>,
    method: Seq<char>,
    address: Seq<char>,
)
    ensures
        access_description((method, address)) == tlv(
            0x30,
            tlv(0x06, oid_content(method)->0) + tlv(0x86, vstd::utf8::encode_utf8(address)),
        ),
        access_value(list.push((method, address))) == tlv(
            0x30,
            concatenated(
                list.map_values(|d: (Seq<char>, Seq<char>)| access_description(d)),
            ) + access_description((method, address)),
        ),
        access_encodable(list) <==> (forall|i: int|
            0 <= i < list.len() ==> oid_content((#[trigger] list[i]).0) is Some && is_ia5(
                list[i].1,
            )) && access_value(list).len() <= 0xffff_ffff,
{
    let whole = list.push((method, address)).map_values(
        |d: (Seq<char>, Seq<char>)| access_description(d),
    );
    let before = list.map_values(|d: (Seq<char>, Seq<char>)| access_description(d));
    let one = access_description((method, address));
    assert(whole =~= before + seq![one]);
    encodings_of_both(before, seq![one], one);
}

} // verus!
