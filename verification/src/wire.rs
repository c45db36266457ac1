use crate::address::address_of;
use crate::address::lemma_address_by_bytes;
use crate::address::Address;
use vstd::prelude::*;
use vstd::slice::slice_subrange;
use vstd::slice::slice_to_vec;
use vstd::utf8::decode_utf8;
use vstd::utf8::encode_utf8;
use vstd::utf8::encode_utf8_decode_utf8;
use vstd::utf8::encode_utf8_valid_utf8;
use vstd::utf8::valid_utf8;

verus! {

/// Whether `bytes` holds `part` from position `pos` on.
pub open spec fn has_at(bytes: Seq<u8>, pos: int, part: Seq<u8>) -> bool {
    &&& 0 <= pos
    &&& pos + part.len() <= bytes.len()
    &&& bytes.subrange(pos, pos + part.len()) == part
}

/// What holds one part after the other also holds each of them.
pub proof fn lemma_has_at_split(bytes: Seq<u8>, pos: int, first: Seq<u8>, second: Seq<u8>)
    requires
        has_at(bytes, pos, first + second),
    ensures
        has_at(bytes, pos, first),
        has_at(bytes, pos + first.len(), second),
{
    let whole = first + second;
    let sub = bytes.subrange(pos, pos + whole.len());
    assert(bytes.subrange(pos, pos + first.len()) =~= sub.subrange(0, first.len() as int));
    assert(sub.subrange(0, first.len() as int) =~= first);
    assert(bytes.subrange(pos + first.len(), pos + first.len() + second.len()) =~= sub.subrange(
        first.len() as int,
        whole.len() as int,
    ));
    assert(sub.subrange(first.len() as int, whole.len() as int) =~= second);
}

/// The four bytes of an unsigned 32-bit number, lowest first.
#[verifier::opaque]
pub open spec fn u32_le(x: u32) -> Seq<u8> {
    seq![
        (x % 256) as u8,
        (x / 256 % 256) as u8,
        (x / 65536 % 256) as u8,
        (x / 16777216) as u8,
    ]
}

/// The eight bytes of an unsigned 64-bit number, lowest first.
#[verifier::opaque]
pub open spec fn u64_le(x: u64) -> Seq<u8> {
    u32_le((x % 0x1_0000_0000) as u32) + u32_le((x / 0x1_0000_0000) as u32)
}

/// The unsigned number that stands for `x` in two's complement.
pub open spec fn twos_complement(x: i64) -> u64 {
    if x < 0 {
        (x + 0x1_0000_0000_0000_0000) as u64
    } else {
        x as u64
    }
}

/// The signed number that `x` stands for in two's complement.
pub open spec fn from_twos_complement(x: u64) -> i64 {
    if x >= 0x8000_0000_0000_0000 {
        (x - 0x1_0000_0000_0000_0000) as i64
    } else {
        x as i64
    }
}

/// The eight bytes of a signed 64-bit number, lowest first.
#[verifier::opaque]
pub open spec fn i64_le(x: i64) -> Seq<u8> {
    u64_le(twos_complement(x))
}

/// The byte of a flag.
#[verifier::opaque]
pub open spec fn bool_le(b: bool) -> Seq<u8> {
    seq![if b { 1u8 } else { 0u8 }]
}

/// Whether a text is short enough for its length to be written down.
pub open spec fn text_fits(text: Seq<char>) -> bool {
    encode_utf8(text).len() <= u32::MAX
}

/// A text on the wire: the number of its bytes, then the bytes.
#[verifier::opaque]
pub open spec fn text_le(text: Seq<char>) -> Seq<u8> {
    u32_le(encode_utf8(text).len() as u32) + encode_utf8(text)
}

/// The number that the four bytes from `pos` on stand for.
pub open spec fn u32_at(bytes: Seq<u8>, pos: int) -> int {
    bytes[pos] + 256 * bytes[pos + 1] + 65536 * bytes[pos + 2] + 16777216 * bytes[pos + 3]
}

/// Reads an unsigned 32-bit number at `pos`: the number and the position
/// behind it.
#[verifier::opaque]
pub open spec fn parse_u32(bytes: Seq<u8>, pos: int) -> Option<(u32, int)> {
    if 0 <= pos && pos + 4 <= bytes.len() {
        Some((u32_at(bytes, pos) as u32, pos + 4))
    } else {
        None
    }
}

/// Reads a signed 64-bit number at `pos`.
#[verifier::opaque]
pub open spec fn parse_i64(bytes: Seq<u8>, pos: int) -> Option<(i64, int)> {
    if 0 <= pos && pos + 8 <= bytes.len() {
        let low = u32_at(bytes, pos);
        let high = u32_at(bytes, pos + 4);
        Some((from_twos_complement((low + 0x1_0000_0000 * high) as u64), pos + 8))
    } else {
        None
    }
}

/// Reads a flag at `pos`: only the bytes 0 and 1 are flags.
#[verifier::opaque]
pub open spec fn parse_bool(bytes: Seq<u8>, pos: int) -> Option<(bool, int)> {
    if 0 <= pos && pos + 1 <= bytes.len() && bytes[pos] <= 1 {
        Some((bytes[pos] == 1, pos + 1))
    } else {
        None
    }
}

/// Reads a text at `pos`: its bytes must be there in full and be UTF-8.
#[verifier::opaque]
pub open spec fn parse_text(bytes: Seq<u8>, pos: int) -> Option<(Seq<char>, int)> {
    match parse_u32(bytes, pos) {
        Some((len, start)) => {
            if start + len <= bytes.len() && valid_utf8(bytes.subrange(start, start + len)) {
                Some((decode_utf8(bytes.subrange(start, start + len)), start + len))
            } else {
                None
            }
        },
        None => None,
    }
}

/// The address whose bytes are the thirty-two from `pos` on.
pub open spec fn address_at(bytes: Seq<u8>, pos: int) -> Address {
    address_of(bytes.subrange(pos, pos + 32))
}

/// Reads an address at `pos`.
#[verifier::opaque]
pub open spec fn parse_address(bytes: Seq<u8>, pos: int) -> Option<(Address, int)> {
    if 0 <= pos && pos + 32 <= bytes.len() {
        Some((address_at(bytes, pos), pos + 32))
    } else {
        None
    }
}

/// The address at `pos` is the one whose bytes stand there.
pub proof fn lemma_address_at(bytes: Seq<u8>, pos: int, address: Address)
    requires
        address@ == bytes.subrange(pos, pos + 32),
    ensures
        address_at(bytes, pos) == address,
{
    lemma_address_by_bytes(address_at(bytes, pos), address);
}

/// Reading gives back the unsigned 32-bit number that was written.
pub proof fn lemma_u32_round_trip(bytes: Seq<u8>, pos: int, x: u32)
    requires
        has_at(bytes, pos, u32_le(x)),
    ensures
        parse_u32(bytes, pos) == Some((x, pos + 4)),
        u32_le(x).len() == 4,
{
    reveal(u32_le);
    reveal(parse_u32);
    let part = bytes.subrange(pos, pos + 4);
    assert(bytes[pos] == part[0]);
    assert(bytes[pos + 1] == part[1]);
    assert(bytes[pos + 2] == part[2]);
    assert(bytes[pos + 3] == part[3]);
}

/// Reading gives back the signed 64-bit number that was written.
pub proof fn lemma_i64_round_trip(bytes: Seq<u8>, pos: int, x: i64)
    requires
        has_at(bytes, pos, i64_le(x)),
    ensures
        parse_i64(bytes, pos) == Some((x, pos + 8)),
        i64_le(x).len() == 8,
{
    reveal(u64_le);
    reveal(i64_le);
    reveal(parse_i64);
    reveal(parse_u32);
    let u = twos_complement(x);
    let low = (u % 0x1_0000_0000) as u32;
    let high = (u / 0x1_0000_0000) as u32;
    lemma_has_at_split(bytes, pos, u32_le(low), u32_le(high));
    lemma_u32_round_trip(bytes, pos, low);
    lemma_u32_round_trip(bytes, pos + 4, high);
}

/// Reading gives back the flag that was written.
pub proof fn lemma_bool_round_trip(bytes: Seq<u8>, pos: int, b: bool)
    requires
        has_at(bytes, pos, bool_le(b)),
    ensures
        parse_bool(bytes, pos) == Some((b, pos + 1)),
        bool_le(b).len() == 1,
{
    reveal(bool_le);
    reveal(parse_bool);
    assert(bytes[pos] == bytes.subrange(pos, pos + 1)[0]);
}

/// Reading gives back the text that was written.
pub proof fn lemma_text_round_trip(bytes: Seq<u8>, pos: int, text: Seq<char>)
    requires
        text_fits(text),
        has_at(bytes, pos, text_le(text)),
    ensures
        parse_text(bytes, pos) == Some((text, pos + text_le(text).len())),
        text_le(text).len() == 4 + encode_utf8(text).len(),
{
    reveal(text_le);
    reveal(parse_text);
    let body = encode_utf8(text);
    lemma_has_at_split(bytes, pos, u32_le(body.len() as u32), body);
    lemma_u32_round_trip(bytes, pos, body.len() as u32);
    encode_utf8_valid_utf8(text);
    encode_utf8_decode_utf8(text);
}

/// Reading gives back the address that was written.
pub proof fn lemma_address_round_trip(bytes: Seq<u8>, pos: int, address: Address)
    requires
        has_at(bytes, pos, address@),
    ensures
        parse_address(bytes, pos) == Some((address, pos + 32)),
{
    reveal(parse_address);
    lemma_address_at(bytes, pos, address);
}

/// Calls `String::from_utf8`. Trusted: a text comes back exactly when the
/// bytes are UTF-8, and it is the text that those bytes spell.
#[verifier::external_body]
fn string_from_utf8(bytes: Vec<u8>) -> (r: Option<String>)
    ensures
        r is Some <==> valid_utf8(bytes@),
        r matches Some(text) ==> text@ == decode_utf8(bytes@),
{
    match String::from_utf8(bytes) {
        Ok(text) => Some(text),
        Err(_) => None,
    }
}

/// Appends `part` to `out`.
pub fn append_bytes(out: &mut Vec<u8>, part: &[u8])
    ensures
        final(out)@ == old(out)@ + part@,
{
    let mut i: usize = 0;
    while i < part.len()
        invariant
            i <= part.len(),
            out@ == old(out)@ + part@.subrange(0, i as int),
        decreases part.len() - i,
    {
        out.push(part[i]);
        assert(out@ =~= old(out)@ + part@.subrange(0, i + 1));
        i += 1;
    }
    assert(part@.subrange(0, part.len() as int) =~= part@);
}

/// Appends an unsigned 32-bit number.
pub fn write_u32(out: &mut Vec<u8>, x: u32)
    ensures
        final(out)@ == old(out)@ + u32_le(x),
{
    proof {
        reveal(u32_le);
    }
    out.push((x % 256) as u8);
    out.push((x / 256 % 256) as u8);
    out.push((x / 65536 % 256) as u8);
    out.push((x / 16777216) as u8);
    assert(out@ =~= old(out)@ + u32_le(x));
}

/// Appends a signed 64-bit number.
pub fn write_i64(out: &mut Vec<u8>, x: i64)
    ensures
        final(out)@ == old(out)@ + i64_le(x),
{
    proof {
        reveal(u64_le);
        reveal(i64_le);
    }
    let u: u64 = if x < 0 {
        ((x - i64::MIN) as u64) + 0x8000_0000_0000_0000u64
    } else {
        x as u64
    };
    assert(u == twos_complement(x));
    write_u32(out, (u % 0x1_0000_0000) as u32);
    write_u32(out, (u / 0x1_0000_0000) as u32);
    assert(out@ =~= old(out)@ + i64_le(x));
}

/// Appends a flag.
pub fn write_bool(out: &mut Vec<u8>, b: bool)
    ensures
        final(out)@ == old(out)@ + bool_le(b),
{
    proof {
        reveal(bool_le);
    }
    out.push(if b { 1u8 } else { 0u8 });
    assert(out@ =~= old(out)@ + bool_le(b));
}

/// Appends a text, unless it is too long for its length to be written
/// down: then nothing is appended.
pub fn write_text(out: &mut Vec<u8>, text: &str) -> (ok: bool)
    ensures
        ok == text_fits(text@),
        ok ==> final(out)@ == old(out)@ + text_le(text@),
        !ok ==> final(out)@ == old(out)@,
{
    proof {
        reveal(text_le);
    }
    let body = text.as_bytes();
    if body.len() > u32::MAX as usize {
        return false;
    }
    write_u32(out, body.len() as u32);
    append_bytes(out, body);
    assert(out@ =~= old(out)@ + text_le(text@));
    true
}

/// Appends an address.
pub fn write_address(out: &mut Vec<u8>, address: &Address)
    ensures
        final(out)@ == old(out)@ + address@,
{
    let mut i: usize = 0;
    while i < 32
        invariant
            i <= 32,
            out@ == old(out)@ + address@.subrange(0, i as int),
        decreases 32 - i,
    {
        out.push(address.bytes[i]);
        assert(out@ =~= old(out)@ + address@.subrange(0, i + 1));
        i += 1;
    }
    assert(address@.subrange(0, 32) =~= address@);
}

/// Reads an unsigned 32-bit number at `pos`.
pub fn read_u32(data: &[u8], pos: usize) -> (r: Option<(u32, usize)>)
    ensures
        match r {
            Some((x, next)) => parse_u32(data@, pos as int) == Some((x, next as int)),
            None => parse_u32(data@, pos as int) is None,
        },
{
    proof {
        reveal(parse_u32);
    }
    if pos > data.len() || data.len() - pos < 4 {
        return None;
    }
    let b0: u32 = data[pos] as u32;
    let b1: u32 = data[pos + 1] as u32;
    let b2: u32 = data[pos + 2] as u32;
    let b3: u32 = data[pos + 3] as u32;
    Some((b0 + 256 * b1 + 65536 * b2 + 16777216 * b3, pos + 4))
}

/// Reads a signed 64-bit number at `pos`.
pub fn read_i64(data: &[u8], pos: usize) -> (r: Option<(i64, usize)>)
    ensures
        match r {
            Some((x, next)) => parse_i64(data@, pos as int) == Some((x, next as int)),
            None => parse_i64(data@, pos as int) is None,
        },
{
    proof {
        reveal(parse_i64);
        reveal(parse_u32);
    }
    if pos > data.len() || data.len() - pos < 8 {
        return None;
    }
    let (low, mid) = match read_u32(data, pos) {
        Some(found) => found,
        None => { return None; },
    };
    let (high, next) = match read_u32(data, mid) {
        Some(found) => found,
        None => { return None; },
    };
    let u: u64 = low as u64 + 0x1_0000_0000u64 * (high as u64);
    let x: i64 = if u >= 0x8000_0000_0000_0000u64 {
        ((u - 0x8000_0000_0000_0000u64) as i64) + i64::MIN
    } else {
        u as i64
    };
    assert(x == from_twos_complement(u));
    Some((x, next))
}

/// Reads a flag at `pos`.
pub fn read_bool(data: &[u8], pos: usize) -> (r: Option<(bool, usize)>)
    ensures
        match r {
            Some((b, next)) => parse_bool(data@, pos as int) == Some((b, next as int)),
            None => parse_bool(data@, pos as int) is None,
        },
{
    proof {
        reveal(parse_bool);
    }
    if pos >= data.len() || data[pos] > 1 {
        return None;
    }
    Some((data[pos] == 1, pos + 1))
}

/// Reads a text at `pos`.
pub fn read_text(data: &[u8], pos: usize) -> (r: Option<(String, usize)>)
    ensures
        match r {
            Some((text, next)) => parse_text(data@, pos as int) == Some((text@, next as int)),
            None => parse_text(data@, pos as int) is None,
        },
{
    proof {
        reveal(parse_text);
        reveal(parse_u32);
    }
    let (len, start) = match read_u32(data, pos) {
        Some(found) => found,
        None => { return None; },
    };
    if len as u64 > (data.len() - start) as u64 {
        return None;
    }
    let end: usize = start + len as usize;
    let body = slice_to_vec(slice_subrange(data, start, end));
    match string_from_utf8(body) {
        Some(text) => Some((text, end)),
        None => None,
    }
}

/// Reads an address at `pos`.
pub fn read_address(data: &[u8], pos: usize) -> (r: Option<(Address, usize)>)
    ensures
        match r {
            Some((address, next)) => parse_address(data@, pos as int) == Some(
                (address, next as int),
            ),
            None => parse_address(data@, pos as int) is None,
        },
{
    proof {
        reveal(parse_address);
    }
    if pos > data.len() || data.len() - pos < 32 {
        return None;
    }
    let mut bytes = [0u8; 32];
    let mut i: usize = 0;
    while i < 32
        invariant
            i <= 32,
            pos + 32 <= data.len(),
            forall|j: int| 0 <= j < i ==> bytes[j] == data[pos + j],
        decreases 32 - i,
    {
        bytes[i] = data[pos + i];
        i += 1;
    }
    let address = Address { bytes };
    assert(address@ =~= data@.subrange(pos as int, pos + 32));
    proof {
        lemma_address_at(data@, pos as int, address);
    }
    Some((address, pos + 32))
}


/// `len` bytes that are all zero: what a record holds when it was created.
pub open spec fn zeros(len: nat) -> Seq<u8> {
    Seq::new(len, |i: int| 0u8)
}

/// How long each kind of field is on the wire.
pub proof fn lemma_field_lengths(x: u32, y: i64, b: bool, text: Seq<char>)
    ensures
        u32_le(x).len() == 4,
        i64_le(y).len() == 8,
        bool_le(b).len() == 1,
        text_le(text).len() == 4 + encode_utf8(text).len(),
{
    reveal(u32_le);
    reveal(u64_le);
    reveal(i64_le);
    reveal(bool_le);
    reveal(text_le);
}

/// A flag that is not set, the number zero and the empty text are written
/// as zero bytes, and the empty text fits.
pub proof fn lemma_zero_fields()
    ensures
        bool_le(false) == zeros(1),
        u32_le(0) == zeros(4),
        i64_le(0) == zeros(8),
        text_le(Seq::empty()) == zeros(4),
        text_fits(Seq::empty()),
{
    reveal(u32_le);
    reveal(u64_le);
    reveal(i64_le);
    reveal(bool_le);
    reveal(text_le);
    assert(encode_utf8(Seq::<char>::empty()) =~= Seq::<u8>::empty());
    assert(bool_le(false) =~= zeros(1));
    assert(u32_le(0) =~= zeros(4));
    assert(i64_le(0) =~= zeros(8));
    assert(text_le(Seq::empty()) =~= zeros(4));
}


} // verus!
