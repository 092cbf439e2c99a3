//! The protocol-mandated inter-frame silence before a response is
//! written: four symbol times, where a symbol carries one start bit,
//! eight data bits, the parity bits and the stop bits.

use vstd::prelude::*;

verus! {

/// The response delay in microseconds for a link with the given baud rate,
/// parity bit count and stop bit count.
pub fn response_delay_us(baud_rate: u32, n_parity_bits: u32, n_stop_bits: u32) -> (r: u64)
    requires
        baud_rate > 0,
    ensures
        r == 4 * (1 + 8 + n_parity_bits + n_stop_bits) * 1_000_000 / (baud_rate as int),
{
    let bits_per_symbol: u64 = 1 + 8 + (n_parity_bits as u64) + (n_stop_bits as u64);
    4 * bits_per_symbol * 1_000_000 / (baud_rate as u64)
}

} // verus!
