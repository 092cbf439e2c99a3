//! The Modbus CRC-16 engine: polynomial 0xA001, initial value 0xFFFF,
//! each byte folded in low-bit-first over eight shift/xor rounds.

use vstd::prelude::*;

verus! {

/// One shift/xor round of the CRC register.
pub open spec fn crc_round(c: u16) -> u16 {
    if c & 1 != 0 {
        (c >> 1) ^ 0xA001
    } else {
        c >> 1
    }
}

/// `n` successive shift/xor rounds.
pub open spec fn crc_rounds(c: u16, n: nat) -> u16
    decreases n,
{
    if n == 0 {
        c
    } else {
        crc_rounds(crc_round(c), (n - 1) as nat)
    }
}

/// Folding one byte into the CRC register: xor into the low byte,
/// then eight rounds.
pub open spec fn crc_push(c: u16, b: u8) -> u16 {
    crc_rounds(c ^ (b as u16), 8)
}

/// The Modbus CRC-16 of a byte sequence, starting from 0xFFFF.
pub open spec fn crc_spec(s: Seq<u8>) -> u16
    decreases s.len(),
{
    if s.len() == 0 {
        0xFFFF
    } else {
        crc_push(crc_spec(s.drop_last()), s.last())
    }
}

proof fn lemma_crc_rounds_snoc(c: u16, n: nat)
    ensures
        crc_rounds(c, n + 1) == crc_round(crc_rounds(c, n)),
    decreases n,
{
    if n == 0 {
        assert(crc_rounds(c, 1) == crc_rounds(crc_round(c), 0));
    } else {
        lemma_crc_rounds_snoc(crc_round(c), (n - 1) as nat);
        assert(crc_rounds(c, n + 1) == crc_rounds(crc_round(c), n));
        assert(crc_rounds(c, n) == crc_rounds(crc_round(c), (n - 1) as nat));
    }
}

/// The CRC of the empty sequence is the initial register value.
pub proof fn lemma_crc_empty()
    ensures
        crc_spec(Seq::<u8>::empty()) == 0xFFFFu16,
{
}

/// Computes the Modbus CRC-16 of `buf`, in host order; callers serialize
/// it low byte first on the wire.
pub fn crc(buf: &[u8]) -> (r: u16)
    ensures
        r == crc_spec(buf@),
{
    let mut c: u16 = 0xFFFF;
    let mut i: usize = 0;
    while i < buf.len()
        invariant
            i <= buf@.len(),
            c == crc_spec(buf@.take(i as int)),
        decreases buf@.len() - i,
    {
        c = c ^ (buf[i] as u16);
        let mut round: usize = 0;
        while round < 8
            invariant
                round <= 8,
                c == crc_rounds(crc_spec(buf@.take(i as int)) ^ (buf@[i as int] as u16), round as nat),
            decreases 8 - round,
        {
            proof {
                lemma_crc_rounds_snoc(crc_spec(buf@.take(i as int)) ^ (buf@[i as int] as u16), round as nat);
            }
            if (c & 0x0001) != 0 {
                c = (c >> 1) ^ 0xA001;
            } else {
                c = c >> 1;
            }
            round = round + 1;
        }
        proof {
            assert(buf@.take(i + 1).drop_last() =~= buf@.take(i as int));
            assert(buf@.take(i + 1).last() == buf@[i as int]);
        }
        i = i + 1;
    }
    proof {
        assert(buf@.take(buf@.len() as int) =~= buf@);
    }
    c
}

} // verus!
