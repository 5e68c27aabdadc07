//! The distinguished encoding of tagged values: one tag byte, the length in its
//! shortest form, the content.
use vstd::prelude::*;

verus! {

pub const TAG_INTEGER: u8 = 0x02;

pub const TAG_BIT_STRING: u8 = 0x03;

pub const TAG_OCTET_STRING: u8 = 0x04;

pub const TAG_OID: u8 = 0x06;

pub const TAG_ENUMERATED: u8 = 0x0a;

pub const TAG_GENERALIZED_TIME: u8 = 0x18;

pub const TAG_SEQUENCE: u8 = 0x30;

/// A number in base 256, most significant byte first, without leading zeros.
pub open spec fn base256(n: nat) -> Seq<u8>
    decreases n,
{
    if n == 0 {
        seq![]
    } else {
        base256(n / 256).push((n % 256) as u8)
    }
}

/// The number that bytes stand for in base 256.
pub open spec fn base256_value(bytes: Seq<u8>) -> nat
    decreases bytes.len(),
{
    if bytes.len() == 0 {
        0
    } else {
        base256_value(bytes.drop_last()) * 256 + bytes.last() as nat
    }
}

/// The length bytes: one byte below 128, else the number of bytes that follow.
pub open spec fn length_bytes(n: nat) -> Seq<u8> {
    if n < 128 {
        seq![n as u8]
    } else {
        seq![(128 + base256(n).len()) as u8] + base256(n)
    }
}

/// The encoding of a content under a tag.
pub open spec fn tlv(tag: u8, content: Seq<u8>) -> Seq<u8> {
    seq![tag] + length_bytes(content.len()) + content
}

/// Encodings one after the other.
pub open spec fn concatenated(parts: Seq<Seq<u8>>) -> Seq<u8>
    decreases parts.len(),
{
    if parts.len() == 0 {
        seq![]
    } else {
        concatenated(parts.drop_last()) + parts.last()
    }
}

/// The longest content that a four-byte length can announce.
pub const MAX_CONTENT: u64 = 0xffff_ffff;

/// Where the header of the first encoding ends and how long its content is,
/// where the bytes begin with a header in its shortest form.
pub open spec fn header(bytes: Seq<u8>) -> Option<(int, int)> {
    if bytes.len() < 2 {
        None
    } else if bytes[1] < 128 {
        Some((2, bytes[1] as int))
    } else {
        let k = bytes[1] - 128;
        if k == 0 || k > 4 || bytes.len() < 2 + k || bytes[2] == 0 {
            None
        } else {
            let n = base256_value(bytes.subrange(2, 2 + k));
            if n < 128 {
                None
            } else {
                Some((2 + k, n as int))
            }
        }
    }
}

/// The tag and content of the first encoding, and what follows it.
pub open spec fn split(bytes: Seq<u8>) -> Option<(u8, Seq<u8>, Seq<u8>)> {
    match header(bytes) {
        Some((h, n)) if h + n <= bytes.len() => Some(
            (bytes[0], bytes.subrange(h, h + n), bytes.skip(h + n)),
        ),
        _ => None,
    }
}

proof fn base256_round_trip(n: nat)
    ensures
        base256_value(base256(n)) == n,
        n > 0 ==> base256(n).len() > 0 && base256(n)[0] != 0,
    decreases n,
{
    if n > 0 {
        base256_round_trip(n / 256);
        assert(base256(n).drop_last() =~= base256(n / 256));
        if n / 256 == 0 {
            assert(base256(n / 256).len() == 0);
        }
    }
}

proof fn base256_short(n: nat)
    requires
        n <= MAX_CONTENT,
    ensures
        base256(n).len() <= 4,
{
    reveal_with_fuel(base256, 6);
    assert(n / 256 <= 0xff_ffff);
    assert(n / 256 / 256 <= 0xffff);
    assert(n / 256 / 256 / 256 <= 0xff);
    assert(n / 256 / 256 / 256 / 256 == 0);
}

proof fn base256_value_round_trip(bytes: Seq<u8>)
    requires
        bytes.len() > 0,
        bytes[0] != 0,
    ensures
        base256(base256_value(bytes)) == bytes,
        base256_value(bytes) > 0,
    decreases bytes.len(),
{
    let v = base256_value(bytes);
    let high = base256_value(bytes.drop_last());
    let low = bytes.last() as nat;
    assert(v == high * 256 + low);
    assert(v / 256 == high);
    assert(v % 256 == low);
    if bytes.len() > 1 {
        base256_value_round_trip(bytes.drop_last());
        assert(base256(v) =~= bytes.drop_last().push(bytes.last()));
        assert(bytes =~= bytes.drop_last().push(bytes.last()));
    } else {
        assert(bytes.drop_last() =~= Seq::<u8>::empty());
        assert(high == 0);
        reveal_with_fuel(base256, 2);
        assert(base256(v) =~= bytes);
    }
}

/// An encoding is read back as it was written, whatever follows it.
pub proof fn split_of_tlv(tag: u8, content: Seq<u8>, rest: Seq<u8>)
    requires
        content.len() <= MAX_CONTENT,
    ensures
        split(tlv(tag, content) + rest) == Some((tag, content, rest)),
{
    let n = content.len();
    let bytes = tlv(tag, content) + rest;
    base256_round_trip(n);
    base256_short(n);
    let k = base256(n).len() as int;
    let h = if n < 128 { 2int } else { 2 + k };
    if n < 128 {
        assert(bytes[1] == n as u8);
    } else {
        assert(bytes[1] == (128 + k) as u8);
        assert(bytes.subrange(2, 2 + k) =~= base256(n));
        assert(bytes[2] == base256(n)[0]);
    }
    assert(header(bytes) == Some((h, n as int)));
    assert(bytes.subrange(h, h + n) =~= content);
    assert(bytes.skip(h + n) =~= rest);
}

/// What is read as an encoding is that encoding.
pub proof fn tlv_of_split(bytes: Seq<u8>)
    requires
        split(bytes) is Some,
    ensures
        ({
            let (tag, content, rest) = split(bytes)->0;
            &&& bytes == tlv(tag, content) + rest
            &&& content.len() <= MAX_CONTENT
            &&& rest.len() + content.len() + 2 <= bytes.len()
        }),
{
    let (h, n) = header(bytes)->0;
    let (tag, content, rest) = split(bytes)->0;
    if bytes[1] < 128 {
        assert(length_bytes(content.len()) =~= seq![bytes[1]]);
    } else {
        let k = bytes[1] - 128;
        let digits = bytes.subrange(2, 2 + k);
        assert(digits[0] == bytes[2]);
        base256_value_round_trip(digits);
        base256_bound(digits);
        assert(length_bytes(content.len()) =~= seq![bytes[1]] + digits);
    }
    assert(bytes =~= tlv(tag, content) + rest);
}

proof fn base256_bound(bytes: Seq<u8>)
    requires
        bytes.len() <= 4,
    ensures
        base256_value(bytes) <= MAX_CONTENT,
{
    reveal_with_fuel(base256_value, 6);
}

/// Appends the base 256 digits of a number.
fn push_base256(out: &mut Vec<u8>, n: u64)
    ensures
        final(out)@ == old(out)@ + base256(n as nat),
    decreases n,
{
    if n > 0 {
        push_base256(out, n / 256);
        out.push((n % 256) as u8);
    }
    assert(out@ =~= old(out)@ + base256(n as nat));
}

proof fn base256_of_u64(n: nat)
    requires
        n <= u64::MAX,
    ensures
        base256(n).len() <= 8,
{
    reveal_with_fuel(base256, 10);
    assert(n / 256 <= 0xff_ffff_ffff_ffff);
    assert(n / 256 / 256 <= 0xffff_ffff_ffff);
    assert(n / 256 / 256 / 256 <= 0xff_ffff_ffff);
    assert(n / 256 / 256 / 256 / 256 <= 0xffff_ffff);
    assert(n / 256 / 256 / 256 / 256 / 256 <= 0xff_ffff);
    assert(n / 256 / 256 / 256 / 256 / 256 / 256 <= 0xffff);
    assert(n / 256 / 256 / 256 / 256 / 256 / 256 / 256 <= 0xff);
    assert(n / 256 / 256 / 256 / 256 / 256 / 256 / 256 / 256 == 0);
}

/// Appends the bytes of a slice.
pub fn push_bytes(out: &mut Vec<u8>, bytes: &[u8])
    ensures
        final(out)@ == old(out)@ + bytes@,
{
    let ghost before = out@;
    let mut i: usize = 0;
    while i < bytes.len()
        invariant
            i <= bytes@.len(),
            out@ == before + bytes@.take(i as int),
        decreases bytes.len() - i,
    {
        out.push(bytes[i]);
        assert(before + bytes@.take(i + 1) =~= (before + bytes@.take(i as int)).push(bytes@[i as int]));
        i += 1;
    }
    assert(bytes@.take(bytes@.len() as int) =~= bytes@);
}

/// A copy of the bytes of a slice.
pub fn copy_of(bytes: &[u8]) -> (r: Vec<u8>)
    ensures
        r@ == bytes@,
{
    let mut out: Vec<u8> = Vec::new();
    push_bytes(&mut out, bytes);
    assert(out@ =~= bytes@);
    out
}

/// A copy of a part of a slice.
pub fn part_of(bytes: &[u8], from: usize, to: usize) -> (r: Vec<u8>)
    requires
        from <= to <= bytes@.len(),
    ensures
        r@ == bytes@.subrange(from as int, to as int),
{
    let mut out: Vec<u8> = Vec::new();
    let mut i: usize = from;
    while i < to
        invariant
            from <= i <= to <= bytes@.len(),
            out@ == bytes@.subrange(from as int, i as int),
        decreases to - i,
    {
        out.push(bytes[i]);
        assert(bytes@.subrange(from as int, i + 1) =~= bytes@.subrange(from as int, i as int).push(
            bytes@[i as int],
        ));
        i += 1;
    }
    out
}

/// Appends the encoding of a content under a tag.
pub fn push_tlv(out: &mut Vec<u8>, tag: u8, content: &[u8])
    ensures
        final(out)@ == old(out)@ + tlv(tag, content@),
{
    let ghost before = out@;
    let n: u64 = content.len() as u64;
    out.push(tag);
    if n < 128 {
        out.push(n as u8);
    } else {
        let mut digits: Vec<u8> = Vec::new();
        push_base256(&mut digits, n);
        proof {
            base256_of_u64(n as nat);
            assert(digits@ =~= base256(n as nat));
        }
        out.push(128 + digits.len() as u8);
        push_bytes(out, digits.as_slice());
    }
    push_bytes(out, content);
    assert(out@ =~= before + tlv(tag, content@));
}

/// The encoding of a content under a tag.
pub fn encode_tlv(tag: u8, content: &[u8]) -> (r: Vec<u8>)
    ensures
        r@ == tlv(tag, content@),
{
    let mut out: Vec<u8> = Vec::new();
    push_tlv(&mut out, tag, content);
    assert(out@ =~= tlv(tag, content@));
    out
}

/// The extent of an encoding that starts at some position.
#[derive(Clone, Copy)]
pub struct Extent {
    pub tag: u8,
    /// Where the content starts.
    pub from: usize,
    /// Where the content, and the encoding, ends.
    pub to: usize,
}

/// Reads the encoding that starts at `start`.
pub fn read_tlv(bytes: &[u8], start: usize) -> (r: Option<Extent>)
    requires
        start <= bytes@.len(),
    ensures
        match r {
            Some(e) => {
                &&& start + 2 <= e.from <= e.to <= bytes@.len()
                &&& split(bytes@.skip(start as int)) == Some(
                    (
                        e.tag,
                        bytes@.subrange(e.from as int, e.to as int),
                        bytes@.skip(e.to as int),
                    ),
                )
            },
            None => split(bytes@.skip(start as int)) is None,
        },
{
    let ghost tail = bytes@.skip(start as int);
    if bytes.len() - start < 2 {
        return None;
    }
    let tag = bytes[start];
    let first = bytes[start + 1];
    let mut from: usize = start + 2;
    let mut n: u64 = first as u64;
    if first >= 128 {
        let k: usize = (first - 128) as usize;
        if k == 0 || k > 4 || bytes.len() - start - 2 < k || bytes[start + 2] == 0 {
            return None;
        }
        n = 0;
        let mut i: usize = 0;
        let ghost digits = tail.subrange(2, 2 + k);
        while i < k
            invariant
                i <= k <= 4,
                start + 2 + k <= bytes@.len() <= usize::MAX,
                tail == bytes@.skip(start as int),
                digits == tail.subrange(2, 2 + k),
                n == base256_value(digits.take(i as int)),
                i == 0 ==> n == 0,
                i == 1 ==> n <= 0xff,
                i == 2 ==> n <= 0xffff,
                i == 3 ==> n <= 0xff_ffff,
                i == 4 ==> n <= 0xffff_ffff,
            decreases k - i,
        {
            assert(digits.take(i + 1).drop_last() =~= digits.take(i as int));
            assert(digits.take(i + 1).last() == bytes@[start + 2 + i]);
            n = n * 256 + bytes[start + 2 + i] as u64;
            i += 1;
        }
        assert(digits.take(k as int) =~= digits);
        if n < 128 {
            return None;
        }
        from = start + 2 + k;
    }
    assert(header(tail) == Some((from - start, n as int)));
    if n > (bytes.len() - from) as u64 {
        return None;
    }
    let to: usize = from + n as usize;
    proof {
        assert(tail.subrange(from - start, to - start) =~= bytes@.subrange(from as int, to as int));
        assert(tail.skip(to - start) =~= bytes@.skip(to as int));
    }
    Some(Extent { tag, from, to })
}

} // verus!
