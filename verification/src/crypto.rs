//! Hexadecimal notation, digests, message authentication and RSA signatures.
use vstd::prelude::*;

use der::asn1::ObjectIdentifier;
use hmac::{Hmac, Mac};
use rsa::pkcs1v15::Pkcs1v15Sign;
use rsa::pkcs8::DecodePublicKey;
use rsa::traits::PublicKeyParts;
use rsa::RsaPublicKey;
use sha2::{Digest, Sha256};

use crate::text::digits_value;

verus! {

/// The lower-case hexadecimal digit of a value below sixteen.
pub open spec fn hex_digit(value: int) -> char {
    if value < 10 {
        (48 + value) as char
    } else {
        (87 + value) as char
    }
}

/// Two lower-case hexadecimal digits for each byte, the high half first.
pub open spec fn hex_text(bytes: Seq<u8>) -> Seq<char> {
    Seq::new(
        bytes.len() * 2,
        |i: int|
            if i % 2 == 0 {
                hex_digit(bytes[i / 2] as int / 16)
            } else {
                hex_digit(bytes[i / 2] as int % 16)
            },
    )
}

/// The value of a hexadecimal digit of either case, where the character is one.
pub open spec fn hex_value(c: char) -> Option<int> {
    if 48 <= c as u32 <= 57 {
        Some(c as u32 - 48)
    } else if 97 <= c as u32 <= 102 {
        Some(c as u32 - 87)
    } else if 65 <= c as u32 <= 70 {
        Some(c as u32 - 55)
    } else {
        None
    }
}

/// An even number of hexadecimal digits.
pub open spec fn is_hex(text: Seq<char>) -> bool {
    &&& text.len() % 2 == 0
    &&& forall|i: int| 0 <= i < text.len() ==> hex_value(#[trigger] text[i]) is Some
}

/// The bytes that pairs of hexadecimal digits stand for.
pub open spec fn hex_bytes(text: Seq<char>) -> Seq<u8> {
    Seq::new(
        text.len() / 2,
        |i: int|
            (hex_value(text[2 * i])->0 * 16 + hex_value(text[2 * i + 1])->0) as u8,
    )
}

/// Bytes written in hexadecimal are read back as they were.
pub proof fn hex_round_trip(bytes: Seq<u8>)
    ensures
        is_hex(hex_text(bytes)),
        hex_bytes(hex_text(bytes)) == bytes,
{
    let text = hex_text(bytes);
    assert forall|i: int| 0 <= i < text.len() implies hex_value(#[trigger] text[i]) is Some by {
        assert(0 <= i / 2 < bytes.len());
        assert(bytes[i / 2] as int / 16 < 16);
    }
    assert forall|i: int| 0 <= i < bytes.len() implies hex_bytes(text)[i] == bytes[i] by {
        assert((2 * i) / 2 == i && (2 * i) % 2 == 0);
        assert((2 * i + 1) / 2 == i && (2 * i + 1) % 2 == 1);
        let high = bytes[i] as int / 16;
        let low = bytes[i] as int % 16;
        assert(text[2 * i] == hex_digit(high));
        assert(text[2 * i + 1] == hex_digit(low));
        assert(hex_value(hex_digit(high)) == Some(high));
        assert(hex_value(hex_digit(low)) == Some(low));
    }
    assert(hex_bytes(text) =~= bytes);
}

/// What is said about a text that is not hexadecimal.
pub uninterp spec fn hex_fault(text: Seq<char>) -> Seq<char>;

/// `hex::encode`: two lower-case digits for each byte.
#[verifier::external_body]
pub(crate) fn hex_encode(bytes: &[u8]) -> (r: String)
    ensures
        r@ == hex_text(bytes@),
{
    hex::encode(bytes)
}

/// `hex::decode`: accepts an even number of digits of either case. The text of
/// its error is named only.
#[verifier::external_body]
pub(crate) fn hex_decode(text: &str) -> (r: Result<Vec<u8>, String>)
    ensures
        r is Ok <==> is_hex(text@),
        r matches Ok(bytes) ==> bytes@ == hex_bytes(text@),
        r matches Err(fault) ==> fault@ == hex_fault(text@),
{
    hex::decode(text).map_err(|e| e.to_string())
}

/// The SHA-256 digest of bytes.
pub uninterp spec fn sha256_digest(data: Seq<u8>) -> Seq<u8>;

/// `Sha256::digest`: thirty-two bytes that depend on the data alone.
#[verifier::external_body]
pub(crate) fn sha256(data: &[u8]) -> (r: Vec<u8>)
    ensures
        r@ == sha256_digest(data@),
        r@.len() == 32,
{
    Sha256::digest(data).to_vec()
}

/// The SHA-1 digest of bytes.
pub uninterp spec fn sha1_digest(data: Seq<u8>) -> Seq<u8>;

/// `Sha1::digest`: twenty bytes that depend on the data alone.
#[verifier::external_body]
pub(crate) fn sha1(data: &[u8]) -> (r: Vec<u8>)
    ensures
        r@ == sha1_digest(data@),
        r@.len() == 20,
{
    sha1::Sha1::digest(data).to_vec()
}

/// The HMAC-SHA256 code of a message under a key.
pub uninterp spec fn hmac_code(key: Seq<u8>, message: Seq<u8>) -> Seq<u8>;

/// `Hmac::<Sha256>`: the code of a message under a key of any length, in
/// thirty-two bytes.
#[verifier::external_body]
pub(crate) fn hmac_sha256(key: &[u8], message: &[u8]) -> (r: Vec<u8>)
    ensures
        r@ == hmac_code(key@, message@),
        r@.len() == 32,
{
    let mut mac = Hmac::<Sha256>::new_from_slice(key).expect("HMAC");
    mac.update(message);
    mac.finalize().into_bytes().to_vec()
}

/// `Mac::verify_slice`: compares, in constant time, the code of a message with
/// a given one, and accepts only the whole code.
#[verifier::external_body]
pub(crate) fn hmac_sha256_matches(key: &[u8], message: &[u8], code: &[u8]) -> (r: bool)
    ensures
        r == (code@ == hmac_code(key@, message@)),
{
    let mut mac = Hmac::<Sha256>::new_from_slice(key).expect("HMAC");
    mac.update(message);
    mac.verify_slice(code).is_ok()
}

/// The size of the modulus of an RSA key, or why the key cannot be read.
pub uninterp spec fn rsa_key_size(spki_der: Seq<u8>) -> Result<nat, Seq<char>>;

/// `RsaPublicKey::from_public_key_der`, then the bit length of the modulus.
#[verifier::external_body]
pub(crate) fn rsa_key_bits(spki_der: &[u8]) -> (r: Result<usize, String>)
    ensures
        match r {
            Ok(bits) => rsa_key_size(spki_der@) == Ok::<nat, Seq<char>>(bits as nat),
            Err(fault) => rsa_key_size(spki_der@) == Err::<nat, Seq<char>>(fault@),
        },
{
    match RsaPublicKey::from_public_key_der(spki_der) {
        Ok(key) => Ok(key.n().bits()),
        Err(e) => Err(e.to_string()),
    }
}

/// Whether an RSA PKCS#1 v1.5 signature of a SHA-256 digest holds under a key,
/// and if not, what is said about it.
pub uninterp spec fn rsa_signature_fault(
    spki_der: Seq<u8>,
    digest: Seq<u8>,
    signature: Seq<u8>,
) -> Option<Seq<char>>;

/// `RsaPublicKey::verify` with `Pkcs1v15Sign` for SHA-256, under the key read
/// by `RsaPublicKey::from_public_key_der`.
#[verifier::external_body]
pub(crate) fn rsa_verify(spki_der: &[u8], digest: &[u8], signature: &[u8]) -> (r: Result<(), String>)
    ensures
        match r {
            Ok(_) => rsa_signature_fault(spki_der@, digest@, signature@) is None,
            Err(fault) => rsa_signature_fault(spki_der@, digest@, signature@) == Some(fault@),
        },
{
    let key = RsaPublicKey::from_public_key_der(spki_der).map_err(|e| e.to_string())?;
    key.verify(Pkcs1v15Sign::new::<Sha256>(), digest, signature).map_err(|e| e.to_string())
}

/// How many characters come before the first point.
pub open spec fn arc_length(s: Seq<char>) -> nat
    decreases s.len(),
{
    if s.len() == 0 || s[0] == '.' {
        0
    } else {
        1 + arc_length(s.drop_first())
    }
}

/// The numbers of a dotted notation, each in decimal digits and of at most
/// thirty-two bits.
pub open spec fn arcs_of(s: Seq<char>) -> Option<Seq<nat>>
    decreases s.len(),
{
    let n = arc_length(s);
    match digits_value(s.take(n as int)) {
        None => None,
        Some(arc) => if arc > u32::MAX {
            None
        } else if n >= s.len() {
            Some(seq![arc])
        } else {
            match arcs_of(s.skip((n + 1) as int)) {
                Some(rest) => Some(seq![arc] + rest),
                None => None,
            }
        },
    }
}

/// Digits in base 128 with the high bit set, most significant first.
pub open spec fn continued(n: nat) -> Seq<u8>
    decreases n,
{
    if n == 0 {
        seq![]
    } else {
        continued(n / 128).push((128 + n % 128) as u8)
    }
}

/// A number in base 128: the high bit is set in every byte but the last.
pub open spec fn base128(n: nat) -> Seq<u8> {
    continued(n / 128).push((n % 128) as u8)
}

/// Numbers in base 128, one after the other.
pub open spec fn arcs_content(arcs: Seq<nat>) -> Seq<u8>
    decreases arcs.len(),
{
    if arcs.len() == 0 {
        seq![]
    } else {
        arcs_content(arcs.drop_last()) + base128(arcs.last())
    }
}

/// The longest content of an object identifier.
pub const MAX_OID: usize = 39;

/// The content bytes of an object identifier in dotted notation, where the
/// notation is one: two numbers in the first byte, the others in base 128.
pub open spec fn oid_content(dotted: Seq<char>) -> Option<Seq<u8>> {
    match arcs_of(dotted) {
        None => None,
        Some(arcs) => if arcs.len() < 2 || arcs[0] > 2 || arcs[1] > 39 {
            None
        } else {
            let content = seq![(40 * arcs[0] + arcs[1]) as u8] + arcs_content(arcs.skip(2));
            if content.len() <= MAX_OID {
                Some(content)
            } else {
                None
            }
        },
    }
}

/// `ObjectIdentifier::new`, and the content bytes of what it parsed: numbers of
/// thirty-two bits, the first at most two, the second at most thirty-nine, and
/// no more than thirty-nine bytes in all.
#[verifier::external_body]
pub(crate) fn oid_bytes(dotted: &str) -> (r: Option<Vec<u8>>)
    ensures
        match r {
            Some(bytes) => oid_content(dotted@) == Some(bytes@),
            None => oid_content(dotted@) is None,
        },
{
    ObjectIdentifier::new(dotted).ok().map(|oid| oid.as_bytes().to_vec())
}

} // verus!
