//! Side-effect-free MCU binary frame encoding.
//!
//! The decoder stands in [`crate::decoder`]. Keeping the encoder independent
//! from UART ownership lets tests and the production worker share exactly the
//! same wire representation.

use crate::bytes::append_bytes;
use crate::crc;
use crate::crc::crc8;
use crate::text;
use crate::text::decimal_text;
use crate::text::join3;
use vstd::prelude::*;

verus! {

/// The first byte of every MCU frame.
pub const SYNC: u8 = 0xaa;

/// `byte` may not stand in a frame body as it is.
pub open spec fn reserved(byte: u8) -> bool {
    byte == 0xa9 || byte == 0xaa
}

/// What stands for `byte` in a frame body.
pub open spec fn escaped_byte(byte: u8) -> Seq<u8> {
    if byte == 0xa9 {
        seq![0xa9u8, 0x00u8]
    } else if byte == 0xaa {
        seq![0xa9u8, 0x01u8]
    } else {
        seq![byte]
    }
}

/// `bytes` with every reserved byte replaced by its escape pair.
pub open spec fn escaped(bytes: Seq<u8>) -> Seq<u8>
    decreases bytes.len(),
{
    if bytes.len() == 0 {
        Seq::empty()
    } else {
        escaped_byte(bytes[0]) + escaped(bytes.skip(1))
    }
}

/// How many bytes of `bytes` are reserved.
pub open spec fn expansions(bytes: Seq<u8>) -> nat
    decreases bytes.len(),
{
    if bytes.len() == 0 {
        0
    } else {
        (if reserved(bytes[0]) {
            1nat
        } else {
            0nat
        }) + expansions(bytes.skip(1))
    }
}

/// The payload with its checksum, as it stands in the frame before escaping.
pub open spec fn sealed(payload: Seq<u8>) -> Seq<u8> {
    payload.push(crc::crc8_of(payload, 0))
}

/// `payload` has a wire form: its length and one more than its number of escape
/// pairs each fit in one byte.
pub open spec fn encodable(payload: Seq<u8>) -> bool {
    payload.len() <= 255 && expansions(sealed(payload)) < 255
}

/// The wire form of `payload`.
pub open spec fn encoded(payload: Seq<u8>) -> Seq<u8> {
    seq![SYNC, payload.len() as u8, (expansions(sealed(payload)) + 1) as u8] + escaped(
        sealed(payload),
    )
}

/// What is said where `payload` has no wire form.
pub open spec fn encode_error(payload: Seq<u8>) -> Seq<char> {
    if payload.len() > 255 {
        "payload too large: "@ + text::decimal(payload.len()) + " bytes"@
    } else {
        "escape overhead overflow"@
    }
}

/// The outcome of encoding `payload`.
pub open spec fn encodes_to(payload: Seq<u8>, result: Result<Vec<u8>, String>) -> bool {
    match result {
        Ok(raw) => encodable(payload) && raw@ == encoded(payload),
        Err(said) => !encodable(payload) && said@ == encode_error(payload),
    }
}

/// Escaping works piece by piece.
pub proof fn escaped_concat(a: Seq<u8>, b: Seq<u8>)
    ensures
        escaped(a + b) == escaped(a) + escaped(b),
        expansions(a + b) == expansions(a) + expansions(b),
    decreases a.len(),
{
    if a.len() == 0 {
        assert(a + b =~= b);
        assert(escaped(a) + escaped(b) =~= escaped(b));
    } else {
        escaped_concat(a.skip(1), b);
        assert((a + b).skip(1) =~= a.skip(1) + b);
        assert(escaped(a + b) =~= escaped(a) + escaped(b));
    }
}

proof fn escaped_one(byte: u8)
    ensures
        escaped(seq![byte]) == escaped_byte(byte),
        expansions(seq![byte]) == (if reserved(byte) {
            1nat
        } else {
            0nat
        }),
{
    let one = seq![byte];
    assert(one.skip(1) =~= Seq::<u8>::empty());
    assert(escaped(one.skip(1)) =~= Seq::<u8>::empty());
    assert(expansions(one.skip(1)) == 0);
    assert(escaped(one) =~= escaped_byte(byte));
}

/// Every escape pair makes the frame body one byte longer.
pub proof fn escaped_length(bytes: Seq<u8>)
    ensures
        escaped(bytes).len() == bytes.len() + expansions(bytes),
        expansions(bytes) <= bytes.len(),
    decreases bytes.len(),
{
    if bytes.len() > 0 {
        escaped_length(bytes.skip(1));
    }
}

/// The sync byte stands nowhere in an escaped body, so a frame start cannot be
/// mistaken.
pub proof fn escaped_has_no_sync(bytes: Seq<u8>)
    ensures
        forall|i: int| 0 <= i < escaped(bytes).len() ==> escaped(bytes)[i] != SYNC,
    decreases bytes.len(),
{
    if bytes.len() > 0 {
        escaped_has_no_sync(bytes.skip(1));
        let head = escaped_byte(bytes[0]);
        assert forall|i: int| 0 <= i < escaped(bytes).len() implies escaped(bytes)[i] != SYNC by {
            if i >= head.len() {
                assert(escaped(bytes)[i] == escaped(bytes.skip(1))[i - head.len()]);
            }
        }
    }
}

fn push_escaped(body: &mut Vec<u8>, byte: u8)
    ensures
        final(body)@ == old(body)@ + escaped_byte(byte),
{
    if byte == 0xa9 {
        body.push(0xa9);
        body.push(0x00);
    } else if byte == 0xaa {
        body.push(0xa9);
        body.push(0x01);
    } else {
        body.push(byte);
    }
    assert(body@ =~= old(body)@ + escaped_byte(byte));
}

/// Encode one MCU payload, append its CRC, and escape reserved bytes.
pub fn encode_binary_frame(payload: &[u8]) -> (result: Result<Vec<u8>, String>)
    ensures
        encodes_to(payload@, result),
{
    if payload.len() > 255 {
        let length = decimal_text(payload.len() as u64);
        return Err(join3("payload too large: ", length.as_str(), " bytes"));
    }
    let crc = crc8(payload, 0);
    let mut all: Vec<u8> = Vec::new();
    append_bytes(&mut all, payload);
    all.push(crc);
    assert(all@ =~= sealed(payload@));

    let mut body: Vec<u8> = Vec::new();
    let mut count: u16 = 0;
    let mut i: usize = 0;
    assert(all@.take(0) =~= Seq::<u8>::empty());
    while i < all.len()
        invariant
            i <= all@.len(),
            all@.len() <= 256,
            count <= i,
            body@ == escaped(all@.take(i as int)),
            count == expansions(all@.take(i as int)),
        decreases all@.len() - i,
    {
        let byte = all[i];
        push_escaped(&mut body, byte);
        proof {
            assert(all@.take(i + 1) =~= all@.take(i as int) + seq![byte]);
            escaped_concat(all@.take(i as int), seq![byte]);
            escaped_one(byte);
        }
        if byte == 0xa9 || byte == 0xaa {
            count += 1;
        }
        i += 1;
    }
    assert(all@.take(i as int) =~= all@);
    if count >= 255 {
        return Err("escape overhead overflow".to_string());
    }
    let mut raw: Vec<u8> = Vec::new();
    raw.push(SYNC);
    raw.push(payload.len() as u8);
    raw.push((count + 1) as u8);
    append_bytes(&mut raw, body.as_slice());
    assert(raw@ =~= encoded(payload@));
    Ok(raw)
}

/// Each byte is escaped for itself, wherever it stands: `a9` as `a9 00`, `aa` as `a9 01`,
/// and every other byte as it is. The wire form is the sync byte, the length of the
/// payload, one more than the number of pairs, and then the escaped payload and checksum.
pub proof fn bytes_are_escaped_in_place(a: Seq<u8>, byte: u8, b: Seq<u8>)
    ensures
        escaped(a + seq![byte] + b) == escaped(a) + (if byte == 0xa9 {
            seq![0xa9u8, 0x00]
        } else if byte == 0xaa {
            seq![0xa9u8, 0x01]
        } else {
            seq![byte]
        }) + escaped(b),
        encodable(a) ==> encoded(a)[0] == 0xaa && encoded(a)[1] == a.len() && encoded(a)[2] == encoded(
            a,
        ).len() - a.len() - 3 && encoded(a).skip(3) == escaped(a + seq![crc::crc8_of(a, 0)]),
{
    escaped_concat(a + seq![byte], b);
    escaped_concat(a, seq![byte]);
    escaped_one(byte);
    escaped_length(sealed(a));
    assert(sealed(a) =~= a + seq![crc::crc8_of(a, 0)]);
    assert(encoded(a).skip(3) =~= escaped(sealed(a)));
}

} // verus!
