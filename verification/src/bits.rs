//! Packing coil values into wire bytes and back: eight bits per byte, the
//! first bit of each group in the least-significant position, a final
//! partial group zero-padded.

use vstd::prelude::*;

verus! {

/// A sequence of boolean-like bytes: every element is 0 or 1.
pub open spec fn is_bits(s: Seq<u8>) -> bool {
    forall|i: int| 0 <= i < s.len() ==> s[i] <= 1
}

/// The bit at position `i`, or 0 beyond the end (the zero padding).
pub open spec fn gbit(bits: Seq<u8>, i: int) -> u8 {
    if 0 <= i < bits.len() {
        bits[i]
    } else {
        0
    }
}

/// The low `k` bits of the packed byte for the group starting at `start`.
pub open spec fn pack_partial(bits: Seq<u8>, start: int, k: int) -> u8
    decreases k,
{
    if k <= 0 {
        0
    } else {
        pack_partial(bits, start, k - 1) | (gbit(bits, start + k - 1) << ((k - 1) as u8))
    }
}

/// The packed byte for the group of eight bits starting at `start`.
pub open spec fn pack_byte(bits: Seq<u8>, start: int) -> u8 {
    pack_partial(bits, start, 8)
}

/// The packed form of a bit sequence: one byte per group of eight bits,
/// the last group zero-padded.
pub open spec fn pack_spec(bits: Seq<u8>) -> Seq<u8> {
    Seq::new(((bits.len() + 7) / 8) as nat, |j: int| pack_byte(bits, 8 * j))
}

/// Bit `k` of byte `b`, as 0 or 1.
pub open spec fn bit_at(b: u8, k: u8) -> u8 {
    (b >> k) & 1
}

/// The first `count` bits unpacked from a byte sequence, least-significant
/// bit of each byte first.
pub open spec fn unpack_spec(bytes: Seq<u8>, count: nat) -> Seq<u8> {
    Seq::new(count, |i: int| bit_at(bytes[i / 8], (i % 8) as u8))
}

proof fn lemma_or_bits(b0: u8, b1: u8, b2: u8, b3: u8, b4: u8, b5: u8, b6: u8, b7: u8, v: u8)
    by (bit_vector)
    requires
        b0 <= 1,
        b1 <= 1,
        b2 <= 1,
        b3 <= 1,
        b4 <= 1,
        b5 <= 1,
        b6 <= 1,
        b7 <= 1,
        v == ((((((((0u8 | (b0 << 0u8)) | (b1 << 1u8)) | (b2 << 2u8)) | (b3 << 3u8)) | (b4
            << 4u8)) | (b5 << 5u8)) | (b6 << 6u8)) | (b7 << 7u8)),
    ensures
        (v >> 0u8) & 1 == b0,
        (v >> 1u8) & 1 == b1,
        (v >> 2u8) & 1 == b2,
        (v >> 3u8) & 1 == b3,
        (v >> 4u8) & 1 == b4,
        (v >> 5u8) & 1 == b5,
        (v >> 6u8) & 1 == b6,
        (v >> 7u8) & 1 == b7,
{
}

/// Reading bit `k` of a packed byte gives back the bit that was packed
/// there, or the zero padding beyond the end of the group.
proof fn lemma_pack_byte_bit(bits: Seq<u8>, start: int, k: int)
    requires
        is_bits(bits),
        0 <= k < 8,
    ensures
        bit_at(pack_byte(bits, start), k as u8) == gbit(bits, start + k),
{
    let b0 = gbit(bits, start);
    let b1 = gbit(bits, start + 1);
    let b2 = gbit(bits, start + 2);
    let b3 = gbit(bits, start + 3);
    let b4 = gbit(bits, start + 4);
    let b5 = gbit(bits, start + 5);
    let b6 = gbit(bits, start + 6);
    let b7 = gbit(bits, start + 7);
    assert(pack_byte(bits, start) == ((((((((0u8 | (b0 << 0u8)) | (b1 << 1u8)) | (b2 << 2u8)) | (b3
        << 3u8)) | (b4 << 4u8)) | (b5 << 5u8)) | (b6 << 6u8)) | (b7 << 7u8))) by {
        reveal_with_fuel(pack_partial, 9);
    }
    lemma_or_bits(b0, b1, b2, b3, b4, b5, b6, b7, pack_byte(bits, start));
    if k == 0 {
    } else if k == 1 {
    } else if k == 2 {
    } else if k == 3 {
    } else if k == 4 {
    } else if k == 5 {
    } else if k == 6 {
    } else {
        assert(k == 7);
    }
}

/// Once `k` covers every in-range bit of the group, the remaining terms of
/// the packed byte are zero padding and change nothing.
proof fn lemma_pack_partial_pad(bits: Seq<u8>, start: int, k: int)
    requires
        0 <= k <= 8,
        bits.len() - start <= k,
    ensures
        pack_byte(bits, start) == pack_partial(bits, start, k),
    decreases 8 - k,
{
    if k < 8 {
        lemma_pack_partial_pad(bits, start, k + 1);
        let v = pack_partial(bits, start, k);
        let s: u8 = k as u8;
        assert(gbit(bits, start + k) == 0);
        assert(v | (0u8 << s) == v) by (bit_vector)
            requires
                s < 8,
        ;
    }
}

/// Unpacking a packed bit sequence at its own length gives the sequence
/// back: the padding bits are never read.
pub proof fn lemma_pack_unpack_roundtrip(bits: Seq<u8>)
    requires
        is_bits(bits),
    ensures
        unpack_spec(pack_spec(bits), bits.len() as nat) == bits,
{
    let packed = pack_spec(bits);
    assert forall|i: int| 0 <= i < bits.len() implies unpack_spec(packed, bits.len() as nat)[i]
        == bits[i] by {
        assert(0 <= i / 8 < packed.len());
        lemma_pack_byte_bit(bits, 8 * (i / 8), i % 8);
        assert(8 * (i / 8) + i % 8 == i);
    }
    assert(unpack_spec(packed, bits.len() as nat) =~= bits);
}

/// Every unpacked value is a bit: 0 or 1.
pub proof fn lemma_unpack_is_bits(bytes: Seq<u8>, count: nat)
    ensures
        is_bits(unpack_spec(bytes, count)),
{
    assert forall|i: int| 0 <= i < count implies unpack_spec(bytes, count)[i] <= 1 by {
        let b = bytes[i / 8];
        let k = (i % 8) as u8;
        assert(((b >> k) & 1) <= 1) by (bit_vector);
    }
}

/// Appends to `dst` the packed form of `src`: eight bits per byte,
/// first bit least significant, the final partial group zero-padded.
pub fn pack_bits(src: &[u8], dst: &mut Vec<u8>)
    requires
        is_bits(src@),
    ensures
        final(dst)@ == old(dst)@ + pack_spec(src@),
{
    let ghost base = dst@;
    let mut val: u8 = 0;
    let mut i: usize = 0;
    while i < src.len()
        invariant
            is_bits(src@),
            i <= src@.len(),
            dst@ == base + pack_spec(src@).take((i / 8) as int),
            val == pack_partial(src@, 8 * ((i / 8) as int), (i % 8) as int),
        decreases src@.len() - i,
    {
        let mod8 = i % 8;
        let e = src[i];
        proof {
            assert(gbit(src@, 8 * ((i / 8) as int) + mod8) == src@[i as int]);
        }
        val = val | (e << (mod8 as u8));
        if mod8 == 7 {
            dst.push(val);
            proof {
                assert(pack_spec(src@).take(((i + 1) / 8) as int) =~= pack_spec(src@).take(
                    (i / 8) as int,
                ).push(pack_byte(src@, 8 * ((i / 8) as int))));
            }
            val = 0;
        }
        i = i + 1;
    }
    if src.len() % 8 != 0 {
        proof {
            lemma_pack_partial_pad(src@, 8 * ((i / 8) as int), (i % 8) as int);
        }
        dst.push(val);
        proof {
            assert(base + pack_spec(src@).take((i / 8) as int).push(
                pack_byte(src@, 8 * ((i / 8) as int)),
            ) =~= base + pack_spec(src@));
        }
    } else {
        proof {
            assert(base + pack_spec(src@).take((i / 8) as int) =~= base + pack_spec(src@));
        }
    }
}

/// Appends to `dst` the first `count` bits unpacked from `src`,
/// least-significant bit of each byte first, each as 0 or 1.
pub fn unpack_bits(src: &[u8], count: usize, dst: &mut Vec<u8>)
    requires
        count <= 8 * src@.len(),
    ensures
        final(dst)@ == old(dst)@ + unpack_spec(src@, count as nat),
{
    let ghost base = dst@;
    let mut i: usize = 0;
    while i < count
        invariant
            count <= 8 * src@.len(),
            i <= count,
            dst@ == base + unpack_spec(src@, i as nat),
        decreases count - i,
    {
        let b = src[i / 8];
        let bit = (b >> ((i % 8) as u8)) & 1;
        dst.push(bit);
        proof {
            assert(unpack_spec(src@, (i + 1) as nat) =~= unpack_spec(src@, i as nat).push(
                bit_at(src@[i as int / 8], (i as int % 8) as u8),
            ));
        }
        i = i + 1;
    }
}

} // verus!
