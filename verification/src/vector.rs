use vstd::prelude::*;
use vstd::string::*;

use crate::error::EmbedError;
use crate::text::{decimal, decimal_string};

verus! {

/// Byte `k` (0 = least significant) of the little-endian encoding of `w`.
pub open spec fn le_byte(w: u32, k: int) -> u8 {
    if k == 0 {
        (w & 0xff) as u8
    } else if k == 1 {
        ((w >> 8u32) & 0xff) as u8
    } else if k == 2 {
        ((w >> 16u32) & 0xff) as u8
    } else {
        ((w >> 24u32) & 0xff) as u8
    }
}

/// The 32-bit word whose little-endian bytes are `b0`, `b1`, `b2`, `b3`.
pub open spec fn le_word(b0: u8, b1: u8, b2: u8, b3: u8) -> u32 {
    (b0 as u32) | ((b1 as u32) << 8u32) | ((b2 as u32) << 16u32) | ((b3 as u32) << 24u32)
}

/// The stored layout of a vector of `f32` bit patterns: the four
/// little-endian bytes of each element, in order, with no header or length
/// prefix.
pub open spec fn vector_bytes(v: Seq<u32>) -> Seq<u8> {
    Seq::new(4 * v.len(), |i: int| le_byte(v[i / 4], i % 4))
}

/// The vector of `f32` bit patterns a byte blob holds: each consecutive
/// group of four bytes, read little-endian (a trailing partial group is not
/// part of it).
pub open spec fn bytes_vector(b: Seq<u8>) -> Seq<u32> {
    Seq::new(b.len() / 4, |j: int| le_word(b[4 * j], b[4 * j + 1], b[4 * j + 2], b[4 * j + 3]))
}

/// The message carried by the error for a blob of `len` bytes that is not a
/// whole number of 4-byte words.
pub open spec fn misaligned_blob_message(len: nat) -> Seq<char> {
    "byte blob length "@ + decimal(len) + " is not a multiple of 4 (not a valid f32 array)"@
}

proof fn lemma_word_from_its_bytes(w: u32)
    ensures
        le_word(le_byte(w, 0), le_byte(w, 1), le_byte(w, 2), le_byte(w, 3)) == w,
{
    assert(((w & 0xff) as u8 as u32) | ((((w >> 8u32) & 0xff) as u8 as u32) << 8u32) | ((((w
        >> 16u32) & 0xff) as u8 as u32) << 16u32) | ((((w >> 24u32) & 0xff) as u8 as u32)
        << 24u32) == w) by (bit_vector);
}

proof fn lemma_bytes_of_word(b0: u8, b1: u8, b2: u8, b3: u8)
    ensures
        le_byte(le_word(b0, b1, b2, b3), 0) == b0,
        le_byte(le_word(b0, b1, b2, b3), 1) == b1,
        le_byte(le_word(b0, b1, b2, b3), 2) == b2,
        le_byte(le_word(b0, b1, b2, b3), 3) == b3,
{
    let w: u32 = le_word(b0, b1, b2, b3);
    assert(w == (b0 as u32) | ((b1 as u32) << 8u32) | ((b2 as u32) << 16u32) | ((b3 as u32)
        << 24u32));
    assert(((((b0 as u32) | ((b1 as u32) << 8u32) | ((b2 as u32) << 16u32) | ((b3 as u32)
        << 24u32)) & 0xff) as u8) == b0) by (bit_vector);
    assert((((((b0 as u32) | ((b1 as u32) << 8u32) | ((b2 as u32) << 16u32) | ((b3 as u32)
        << 24u32)) >> 8u32) & 0xff) as u8) == b1) by (bit_vector);
    assert((((((b0 as u32) | ((b1 as u32) << 8u32) | ((b2 as u32) << 16u32) | ((b3 as u32)
        << 24u32)) >> 16u32) & 0xff) as u8) == b2) by (bit_vector);
    assert((((((b0 as u32) | ((b1 as u32) << 8u32) | ((b2 as u32) << 16u32) | ((b3 as u32)
        << 24u32)) >> 24u32) & 0xff) as u8) == b3) by (bit_vector);
}

proof fn lemma_vector_bytes_push(v: Seq<u32>, w: u32)
    ensures
        vector_bytes(v.push(w)) == vector_bytes(v) + seq![
            le_byte(w, 0),
            le_byte(w, 1),
            le_byte(w, 2),
            le_byte(w, 3),
        ],
{
    let lhs = vector_bytes(v.push(w));
    let rhs = vector_bytes(v) + seq![le_byte(w, 0), le_byte(w, 1), le_byte(w, 2), le_byte(w, 3)];
    assert forall|i: int| 0 <= i < lhs.len() implies lhs[i] == rhs[i] by {
        if i < 4 * v.len() {
            assert(i / 4 < v.len());
        } else {
            assert(i / 4 == v.len());
        }
    }
    assert(lhs =~= rhs);
}

/// Packs a vector of `f32` bit patterns into little-endian bytes: the
/// layout `sqlite-vec`'s `vec0` tables store, four bytes per element and no
/// header.
pub fn serialize_f32(vector: &[u32]) -> (bytes: Vec<u8>)
    requires
        vector@.len() * 4 <= usize::MAX,
    ensures
        bytes@ == vector_bytes(vector@),
{
    let mut bytes: Vec<u8> = Vec::with_capacity(vector.len() * 4);
    let mut i: usize = 0;
    while i < vector.len()
        invariant
            i <= vector@.len(),
            bytes@ == vector_bytes(vector@.take(i as int)),
        decreases vector@.len() - i,
    {
        let w: u32 = vector[i];
        bytes.push((w & 0xff) as u8);
        bytes.push(((w >> 8u32) & 0xff) as u8);
        bytes.push(((w >> 16u32) & 0xff) as u8);
        bytes.push(((w >> 24u32) & 0xff) as u8);
        proof {
            lemma_vector_bytes_push(vector@.take(i as int), w);
            assert(vector@.take(i + 1) =~= vector@.take(i as int).push(w));
        }
        i += 1;
    }
    assert(vector@.take(vector@.len() as int) =~= vector@);
    bytes
}

/// Unpacks a little-endian byte blob into the `f32` bit patterns it holds.
///
/// A blob that is not a whole number of 4-byte words is refused with
/// `EmbedError::InvalidInput` rather than truncated.
pub fn deserialize_f32(bytes: &[u8]) -> (r: Result<Vec<u32>, EmbedError>)
    ensures
        match r {
            Ok(v) => bytes@.len() % 4 == 0 && v@ == bytes_vector(bytes@),
            Err(EmbedError::InvalidInput(msg)) => bytes@.len() % 4 != 0 && msg@
                == misaligned_blob_message(bytes@.len()),
            Err(EmbedError::Backend(_)) => false,
        },
{
    let n: usize = bytes.len();
    if n % 4 != 0 {
        let mut msg = String::from_str("byte blob length ");
        let digits = decimal_string(n);
        msg.append(digits.as_str());
        msg.append(" is not a multiple of 4 (not a valid f32 array)");
        return Err(EmbedError::InvalidInput(msg));
    }
    let mut out: Vec<u32> = Vec::with_capacity(n / 4);
    let mut k: usize = 0;
    while k < n
        invariant
            n == bytes@.len(),
            n % 4 == 0,
            k % 4 == 0,
            k <= n,
            out@ == bytes_vector(bytes@).take(k as int / 4),
        decreases n - k,
    {
        let w: u32 = (bytes[k] as u32) | ((bytes[k + 1] as u32) << 8u32) | ((bytes[k + 2] as u32)
            << 16u32) | ((bytes[k + 3] as u32) << 24u32);
        out.push(w);
        assert(bytes_vector(bytes@).take((k + 4) as int / 4) =~= bytes_vector(bytes@).take(
            k as int / 4,
        ).push(w));
        k += 4;
    }
    assert(bytes_vector(bytes@).take(n as int / 4) =~= bytes_vector(bytes@));
    Ok(out)
}

/// Reading back what was written gives the vector that was written: the
/// stored layout of any vector is a whole number of 4-byte words, and
/// unpacking it recovers every element's bit pattern exactly.
pub proof fn law_deserialize_inverts_serialize(v: Seq<u32>)
    ensures
        vector_bytes(v).len() == 4 * v.len(),
        vector_bytes(v).len() % 4 == 0,
        bytes_vector(vector_bytes(v)) == v,
{
    let b = vector_bytes(v);
    let back = bytes_vector(b);
    assert(b.len() / 4 == v.len());
    assert forall|j: int| 0 <= j < v.len() implies back[j] == v[j] by {
        assert((4 * j) / 4 == j && (4 * j) % 4 == 0);
        assert((4 * j + 1) / 4 == j && (4 * j + 1) % 4 == 1);
        assert((4 * j + 2) / 4 == j && (4 * j + 2) % 4 == 2);
        assert((4 * j + 3) / 4 == j && (4 * j + 3) % 4 == 3);
        lemma_word_from_its_bytes(v[j]);
    }
    assert(back =~= v);
}

/// Writing back what was read gives the blob that was read: any blob whose
/// length is a multiple of four is exactly the stored layout of the vector
/// it unpacks to.
pub proof fn law_serialize_inverts_deserialize(b: Seq<u8>)
    requires
        b.len() % 4 == 0,
    ensures
        vector_bytes(bytes_vector(b)) == b,
{
    let v = bytes_vector(b);
    let back = vector_bytes(v);
    assert(4 * (b.len() / 4) == b.len());
    assert forall|i: int| 0 <= i < b.len() implies back[i] == b[i] by {
        let j: int = i / 4;
        assert(4 * j + i % 4 == i);
        assert(4 * j + 3 < b.len());
        lemma_bytes_of_word(b[4 * j], b[4 * j + 1], b[4 * j + 2], b[4 * j + 3]);
    }
    assert(back =~= b);
}

/// The stored layout is little-endian in plain arithmetic: the bytes of
/// element `i` sit at positions `4i .. 4i+4`, least significant first, so
/// byte `4i + k` is digit `k` of `v[i]` written in base 256.
pub proof fn law_layout_is_little_endian(v: Seq<u32>)
    ensures
        vector_bytes(v).len() == 4 * v.len(),
        forall|i: int|
            #![trigger v[i]]
            0 <= i < v.len() ==> {
                &&& vector_bytes(v)[4 * i] as int == v[i] as int % 256
                &&& vector_bytes(v)[4 * i + 1] as int == (v[i] as int / 256) % 256
                &&& vector_bytes(v)[4 * i + 2] as int == (v[i] as int / 65536) % 256
                &&& vector_bytes(v)[4 * i + 3] as int == v[i] as int / 16777216
            },
{
    assert forall|i: int| #![trigger v[i]] 0 <= i < v.len() implies {
        &&& vector_bytes(v)[4 * i] as int == v[i] as int % 256
        &&& vector_bytes(v)[4 * i + 1] as int == (v[i] as int / 256) % 256
        &&& vector_bytes(v)[4 * i + 2] as int == (v[i] as int / 65536) % 256
        &&& vector_bytes(v)[4 * i + 3] as int == v[i] as int / 16777216
    } by {
        let w: u32 = v[i];
        assert((4 * i) / 4 == i && (4 * i) % 4 == 0);
        assert((4 * i + 1) / 4 == i && (4 * i + 1) % 4 == 1);
        assert((4 * i + 2) / 4 == i && (4 * i + 2) % 4 == 2);
        assert((4 * i + 3) / 4 == i && (4 * i + 3) % 4 == 3);
        assert((w & 0xff) as u8 == w % 256) by (bit_vector);
        assert(((w >> 8u32) & 0xff) as u8 == (w / 256) % 256) by (bit_vector);
        assert(((w >> 16u32) & 0xff) as u8 == (w / 65536) % 256) by (bit_vector);
        assert(((w >> 24u32) & 0xff) as u8 == w / 16777216) by (bit_vector);
    }
}

/// Reading is little-endian in plain arithmetic: element `j` of the vector a
/// blob holds is the base-256 number whose digits, least significant first,
/// are the bytes at positions `4j .. 4j+4`.
pub proof fn law_read_is_little_endian(b: Seq<u8>)
    ensures
        bytes_vector(b).len() == b.len() / 4,
        forall|j: int|
            0 <= j < b.len() / 4 ==> #[trigger] bytes_vector(b)[j] as int == b[4 * j] as int + 256
                * b[4 * j + 1] as int + 65536 * b[4 * j + 2] as int + 16777216 * b[4 * j
                + 3] as int,
{
    assert forall|j: int| 0 <= j < b.len() / 4 implies #[trigger] bytes_vector(b)[j] as int
        == b[4 * j] as int + 256 * b[4 * j + 1] as int + 65536 * b[4 * j + 2] as int
        + 16777216 * b[4 * j + 3] as int by {
        let b0: u8 = b[4 * j];
        let b1: u8 = b[4 * j + 1];
        let b2: u8 = b[4 * j + 2];
        let b3: u8 = b[4 * j + 3];
        assert((b0 as u32) | ((b1 as u32) << 8u32) | ((b2 as u32) << 16u32) | ((b3 as u32)
            << 24u32) == b0 as u32 + 256 * (b1 as u32) + 65536 * (b2 as u32) + 16777216 * (
        b3 as u32)) by (bit_vector);
    }
}

/// The layout is contiguous with no header: the bytes of two vectors laid
/// end to end are the bytes of the first followed by the bytes of the
/// second.
pub proof fn law_layout_of_concatenation(a: Seq<u32>, b: Seq<u32>)
    ensures
        vector_bytes(a + b) == vector_bytes(a) + vector_bytes(b),
{
    let lhs = vector_bytes(a + b);
    let rhs = vector_bytes(a) + vector_bytes(b);
    assert forall|i: int| 0 <= i < lhs.len() implies lhs[i] == rhs[i] by {
        if i < 4 * a.len() {
            assert(i / 4 < a.len());
        } else {
            let i2: int = i - 4 * a.len();
            assert(i / 4 == i2 / 4 + a.len());
            assert(i % 4 == i2 % 4);
        }
    }
    assert(lhs =~= rhs);
}

} // verus!
