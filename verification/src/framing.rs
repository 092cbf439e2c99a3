//! Frame length resolution: from the bytes received so far, the total
//! expected frame length (slave id, function code, data and CRC included),
//! or a report that it cannot be known yet or never will be.

use vstd::prelude::*;

use crate::codes::MbExc;

verus! {

/// Capacity of the inbound frame buffer: the largest RTU frame.
pub const IN_BUF_SIZE: usize = 256;

/// Why a frame's length can never be resolved.
#[derive(Clone, Copy, Debug, PartialEq, Eq, Structural)]
pub enum LenError {
    /// The function code byte names no supported function.
    IllegalFunction,
    /// The byte-count field implies a frame larger than the buffer.
    InvalidParameter,
}

/// The outcome of length resolution over the bytes received so far.
#[derive(Clone, Copy, Debug, PartialEq, Eq, Structural)]
pub enum LenResolution {
    /// Too few bytes have arrived to decide.
    NotYetKnown,
    /// The total frame length, slave id and CRC included.
    Known(usize),
    /// No length will ever fit these bytes.
    Refused(LenError),
}

/// The exception code reported for a frame whose length can never be
/// resolved.
pub open spec fn len_error_exc(e: LenError) -> MbExc {
    match e {
        LenError::IllegalFunction => MbExc::IllegalFunction,
        LenError::InvalidParameter => MbExc::IllegalDataValue,
    }
}

/// Length resolution over the bytes received so far.
///
/// Fixed-length functions (the reads and single writes, 0x01 to 0x06) have
/// an 8-byte frame: slave id, function code, four data bytes and two CRC
/// bytes. The write-multiple functions (0x0F, 0x10) carry a byte-count
/// field at byte 6, giving a frame of 9 + byte_count bytes; until byte 6
/// has arrived the length is not yet known, and a byte count that would
/// overrun the buffer is refused.
pub open spec fn get_query_len_spec(q: Seq<u8>) -> LenResolution {
    if q.len() < 2 {
        LenResolution::NotYetKnown
    } else {
        let f = q[1];
        if 0x01 <= f <= 0x06 {
            LenResolution::Known(8)
        } else if f == 0x0F || f == 0x10 {
            if q.len() < 7 {
                LenResolution::NotYetKnown
            } else if 9 + (q[6] as int) > IN_BUF_SIZE {
                LenResolution::Refused(LenError::InvalidParameter)
            } else {
                LenResolution::Known((9 + q[6] as int) as usize)
            }
        } else {
            LenResolution::Refused(LenError::IllegalFunction)
        }
    }
}

/// Resolves the total frame length from the bytes received so far.
pub fn get_query_len(query: &[u8]) -> (r: LenResolution)
    ensures
        r == get_query_len_spec(query@),
{
    if query.len() < 2 {
        return LenResolution::NotYetKnown;
    }
    let f = query[1];
    if 0x01 <= f && f <= 0x06 {
        LenResolution::Known(8)
    } else if f == 0x0F || f == 0x10 {
        if query.len() < 7 {
            LenResolution::NotYetKnown
        } else {
            let n = 9 + (query[6] as usize);
            if n > IN_BUF_SIZE {
                LenResolution::Refused(LenError::InvalidParameter)
            } else {
                LenResolution::Known(n)
            }
        }
    } else {
        LenResolution::Refused(LenError::IllegalFunction)
    }
}

/// A resolution that settled on a length never changes as more bytes of
/// the same frame arrive: the length is decided by the header bytes alone.
pub proof fn lemma_query_len_stable(q: Seq<u8>, q2: Seq<u8>, n: usize)
    requires
        q.len() <= q2.len(),
        q == q2.take(q.len() as int),
        get_query_len_spec(q) == LenResolution::Known(n),
    ensures
        get_query_len_spec(q2) == LenResolution::Known(n),
{
    assert(q2[1] == q[1]);
    if q[1] == 0x0F || q[1] == 0x10 {
        assert(q2[6] == q[6]);
    }
}

/// A fixed-length read request resolves to the full 8-byte frame as soon
/// as its function code has arrived.
pub proof fn lemma_len_read_holding(q: Seq<u8>)
    requires
        q.len() >= 2,
        q[1] == 0x03,
    ensures
        get_query_len_spec(q) == LenResolution::Known(8),
{
}

/// A write-multiple-registers request with byte-count field `k` resolves
/// to a frame of 9 + k bytes: slave id, function code, offset, quantity,
/// the byte count itself, k data bytes and the CRC.
pub proof fn lemma_len_write_multiple(q: Seq<u8>)
    requires
        q.len() >= 7,
        q[1] == 0x10,
        9 + (q[6] as int) <= IN_BUF_SIZE,
    ensures
        get_query_len_spec(q) == LenResolution::Known((9 + q[6] as int) as usize),
{
}

} // verus!
