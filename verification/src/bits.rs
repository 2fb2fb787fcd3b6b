use crate::codec::{expansion, rld, Run};
use crate::error::Error;
use bit_vec::BitVec;
use vstd::prelude::*;

verus! {

/// `bit_vec::BitVec`, the bit sequence that the crate `bit-vec` stores in
/// machine words. Its contents are reached through `bits_of` only.
#[verifier::external_type_specification]
#[verifier::external_body]
#[verifier::reject_recursive_types(B)]
pub struct ExBitVec<B>(BitVec<B>);

/// The bits that a `BitVec` holds, first to last.
pub uninterp spec fn bits_of(v: BitVec) -> Seq<bool>;

/// The byte in which only bit `k` is set, bit 0 being the most significant.
pub open spec fn bit_mask(k: int) -> u8 {
    if k == 0 {
        0x80
    } else if k == 1 {
        0x40
    } else if k == 2 {
        0x20
    } else if k == 3 {
        0x10
    } else if k == 4 {
        0x08
    } else if k == 5 {
        0x04
    } else if k == 6 {
        0x02
    } else {
        0x01
    }
}

/// Bit `k` of `byte`, counted from the most significant bit.
pub open spec fn bit_of(byte: u8, k: int) -> bool {
    byte & bit_mask(k) != 0
}

/// Bit `i` of `bits`, or `false` beyond its end.
pub open spec fn bit_or_false(bits: Seq<bool>, i: int) -> bool {
    0 <= i < bits.len() && bits[i]
}

/// What bit `i` of a sequence contributes to the byte it is packed into.
pub open spec fn weight(bits: Seq<bool>, i: int) -> u8 {
    if bit_or_false(bits, i) {
        bit_mask(i % 8)
    } else {
        0
    }
}

/// Byte `j` of the packed form of `bits`: bits `8j` to `8j + 7`, the first of
/// them most significant, absent bits counting as `false`.
pub open spec fn octet(bits: Seq<bool>, j: int) -> u8 {
    weight(bits, 8 * j) | weight(bits, 8 * j + 1) | weight(bits, 8 * j + 2)
        | weight(bits, 8 * j + 3) | weight(bits, 8 * j + 4) | weight(bits, 8 * j + 5)
        | weight(bits, 8 * j + 6) | weight(bits, 8 * j + 7)
}

/// The number of bytes that `n` bits are packed into.
pub open spec fn octets_for(n: nat) -> nat {
    ((n + 7) / 8) as nat
}

/// The bits of `bytes`: eight per byte, the most significant first.
pub open spec fn unpacked(bytes: Seq<u8>) -> Seq<bool> {
    Seq::new(8 * bytes.len(), |i: int| bit_of(bytes[i / 8], i % 8))
}

/// `bits` packed eight to a byte, the first bit of each group most
/// significant; a last group of fewer than eight is completed with `false`.
pub open spec fn packed(bits: Seq<bool>) -> Seq<u8> {
    Seq::new(octets_for(bits.len()), |j: int| octet(bits, j))
}

/// `bits` followed by as many `false` as bring its length to a multiple of 8.
pub open spec fn padded(bits: Seq<bool>) -> Seq<bool> {
    Seq::new(8 * octets_for(bits.len()), |i: int| bit_or_false(bits, i))
}

/// Every value is 0 or 1.
pub open spec fn all_binary(values: Seq<usize>) -> bool {
    forall|i: int| 0 <= i < values.len() ==> values[i] == 0 || values[i] == 1
}

/// The bit sequence that a sequence of 0s and 1s stands for.
pub open spec fn as_bits(values: Seq<usize>) -> Seq<bool> {
    Seq::new(values.len(), |i: int| values[i] == 1)
}

/// `BitVec::from_bytes`: each byte becomes eight bits, most significant
/// first. The call panics when the number of bits does not fit a `usize`,
/// which the precondition rules out. Trusted, not proved.
#[verifier::external_body]
fn bitvec_from_bytes(bytes: &[u8]) -> (r: BitVec)
    requires
        bytes@.len() * 8 <= usize::MAX,
    ensures
        bits_of(r) == unpacked(bytes@),
{
    BitVec::from_bytes(bytes)
}

/// `BitVec`'s `FromIterator<bool>`: the bits are pushed in the order the
/// iterator yields them, so the result holds exactly `bools`. Trusted, not
/// proved.
#[verifier::external_body]
fn bitvec_from_bools(bools: &Vec<bool>) -> (r: BitVec)
    ensures
        bits_of(r) == bools@,
{
    BitVec::from_iter(bools.iter().copied())
}

/// `BitVec::to_bytes`: the first bit becomes the high-order bit of the first
/// byte, and a trailing group of fewer than eight bits is filled with
/// `false`. Trusted, not proved.
#[verifier::external_body]
fn bitvec_to_bytes(bits: &BitVec) -> (r: Vec<u8>)
    ensures
        r@ == packed(bits_of(*bits)),
{
    bits.to_bytes()
}

proof fn lemma_octet_bits(
    b0: bool,
    b1: bool,
    b2: bool,
    b3: bool,
    b4: bool,
    b5: bool,
    b6: bool,
    b7: bool,
    byte: u8,
)
    by (bit_vector)
    requires
        byte == (if b0 { 0x80u8 } else { 0u8 }) | (if b1 { 0x40u8 } else { 0u8 })
            | (if b2 { 0x20u8 } else { 0u8 }) | (if b3 { 0x10u8 } else { 0u8 })
            | (if b4 { 0x08u8 } else { 0u8 }) | (if b5 { 0x04u8 } else { 0u8 })
            | (if b6 { 0x02u8 } else { 0u8 }) | (if b7 { 0x01u8 } else { 0u8 }),
    ensures
        byte & 0x80u8 != 0 <==> b0,
        byte & 0x40u8 != 0 <==> b1,
        byte & 0x20u8 != 0 <==> b2,
        byte & 0x10u8 != 0 <==> b3,
        byte & 0x08u8 != 0 <==> b4,
        byte & 0x04u8 != 0 <==> b5,
        byte & 0x02u8 != 0 <==> b6,
        byte & 0x01u8 != 0 <==> b7,
{
}

/// Bit `i` of the packed form is bit `i` of the sequence, or `false` where
/// the sequence has ended.
proof fn lemma_packed_bit(bits: Seq<bool>, i: int)
    requires
        0 <= i < 8 * octets_for(bits.len()),
    ensures
        bit_of(packed(bits)[i / 8], i % 8) == bit_or_false(bits, i),
{
    let j = i / 8;
    lemma_octet_bits(
        bit_or_false(bits, 8 * j),
        bit_or_false(bits, 8 * j + 1),
        bit_or_false(bits, 8 * j + 2),
        bit_or_false(bits, 8 * j + 3),
        bit_or_false(bits, 8 * j + 4),
        bit_or_false(bits, 8 * j + 5),
        bit_or_false(bits, 8 * j + 6),
        bit_or_false(bits, 8 * j + 7),
        octet(bits, j),
    );
}

/// Packing a bit sequence and unpacking the bytes gives the sequence back,
/// completed with `false` to the next multiple of 8.
pub proof fn lemma_unpack_pack(bits: Seq<bool>)
    ensures
        unpacked(packed(bits)) == padded(bits),
{
    assert forall|i: int| 0 <= i < 8 * octets_for(bits.len()) implies unpacked(packed(bits))[i]
        == padded(bits)[i] by {
        lemma_packed_bit(bits, i);
    }
}

proof fn lemma_byte_of_bits(byte: u8)
    by (bit_vector)
    ensures
        byte == (if byte & 0x80u8 != 0 { 0x80u8 } else { 0u8 })
            | (if byte & 0x40u8 != 0 { 0x40u8 } else { 0u8 })
            | (if byte & 0x20u8 != 0 { 0x20u8 } else { 0u8 })
            | (if byte & 0x10u8 != 0 { 0x10u8 } else { 0u8 })
            | (if byte & 0x08u8 != 0 { 0x08u8 } else { 0u8 })
            | (if byte & 0x04u8 != 0 { 0x04u8 } else { 0u8 })
            | (if byte & 0x02u8 != 0 { 0x02u8 } else { 0u8 })
            | (if byte & 0x01u8 != 0 { 0x01u8 } else { 0u8 }),
{
}

/// Unpacking bytes and packing the bits gives the bytes back.
pub proof fn lemma_pack_unpack(bytes: Seq<u8>)
    ensures
        packed(unpacked(bytes)) == bytes,
{
    let bits = unpacked(bytes);
    assert forall|j: int| 0 <= j < bytes.len() implies packed(bits)[j] == bytes[j] by {
        lemma_byte_of_bits(bytes[j]);
    }
}

/// The bits of `bytes`, eight per byte, most significant first.
#[allow(non_snake_case)]
pub fn B2b(bytes: &[u8]) -> (r: BitVec)
    requires
        bytes@.len() * 8 <= usize::MAX,
    ensures
        bits_of(r) == unpacked(bytes@),
{
    bitvec_from_bytes(bytes)
}

/// The bit sequence that `uints` spells out in 0s and 1s: `true` for each 1,
/// `false` for each 0. Any other value is refused.
pub fn v2b(uints: Vec<usize>) -> (r: Result<BitVec, Error>)
    ensures
        all_binary(uints@) ==> r is Ok && bits_of(r->Ok_0) == as_bits(uints@),
        !all_binary(uints@) ==> r is Err && r->Err_0 == Error::InvalidBitValue,
{
    let mut bools: Vec<bool> = Vec::new();
    let mut i: usize = 0;
    while i < uints.len()
        invariant
            i <= uints.len(),
            all_binary(uints@.take(i as int)),
            bools@ == as_bits(uints@.take(i as int)),
        decreases uints.len() - i,
    {
        let x = uints[i];
        if x > 1 {
            return Err(Error::InvalidBitValue);
        }
        bools.push(x == 1);
        i += 1;
    }
    proof {
        assert(uints@.take(i as int) == uints@);
    }
    Ok(bitvec_from_bools(&bools))
}

/// `bits` packed into bytes, most significant bit first, the last byte
/// completed with zero bits.
#[allow(non_snake_case)]
pub fn b2B(bits: BitVec) -> (r: Vec<u8>)
    ensures
        r@ == packed(bits_of(bits)),
{
    bitvec_to_bytes(&bits)
}

/// The bit sequence that `runs` expand to; refused if the expansion holds a
/// value that is neither 0 nor 1.
pub fn r2b(runs: Vec<Run>) -> (r: Result<BitVec, Error>)
    ensures
        all_binary(expansion(runs@)) ==> r is Ok && bits_of(r->Ok_0) == as_bits(expansion(runs@)),
        !all_binary(expansion(runs@)) ==> r is Err && r->Err_0 == Error::InvalidBitValue,
{
    v2b(rld(runs))
}

} // verus!
