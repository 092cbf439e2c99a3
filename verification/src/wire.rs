//! Big-endian 16-bit header fields and the little-endian CRC trailer:
//! the byte-level arithmetic the frame formats are written in.

use vstd::prelude::*;

verus! {

/// The 16-bit value of a big-endian byte pair.
pub open spec fn be16(hi: u8, lo: u8) -> u16 {
    ((hi as int) * 256 + (lo as int)) as u16
}

/// The high byte of a 16-bit value.
pub open spec fn hi_byte(x: u16) -> u8 {
    (x / 256) as u8
}

/// The low byte of a 16-bit value.
pub open spec fn lo_byte(x: u16) -> u8 {
    (x % 256) as u8
}

/// Reads the big-endian 16-bit value of a byte pair.
pub fn read_be16(hi: u8, lo: u8) -> (r: u16)
    ensures
        r == be16(hi, lo),
{
    (hi as u16) * 256 + (lo as u16)
}

} // verus!
