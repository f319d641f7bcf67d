//! What one subcarrier of a frame reports, and when.

use vstd::prelude::*;
use crate::csi_packet::{squared_amplitude, squared_amplitude_of, CsiPacket};

verus! {

/// The `(I, Q)` pair of subcarrier `k` among `values`, where they reach that
/// far.
pub open spec fn sample_at(values: Seq<i32>, k: nat) -> Option<(i32, i32)> {
    if 2 * k + 1 < values.len() {
        Some((values[2 * (k as int)], values[2 * (k as int) + 1]))
    } else {
        None
    }
}

/// The time, in microseconds, from `first_ts` to `ts` on a clock that wraps
/// at 64 bits.
pub open spec fn micros_since(first_ts: u64, ts: u64) -> u64 {
    if ts >= first_ts {
        (ts - first_ts) as u64
    } else {
        (ts - first_ts + 0x1_0000_0000_0000_0000) as u64
    }
}

/// The `(I, Q)` pair that `packet` holds for subcarrier `k`, if it has that
/// subcarrier.
pub fn iq_for_subcarrier(packet: &CsiPacket, k: usize) -> (out: Option<(i32, i32)>)
    ensures
        out == sample_at(packet.csi_values@, k as nat),
{
    let n = packet.csi_values.len();
    if n < 2 || k > (n - 2) / 2 {
        return None;
    }
    Some((packet.csi_values[2 * k], packet.csi_values[2 * k + 1]))
}

/// The squared amplitude `I^2 + Q^2` that `packet` holds for subcarrier `k`,
/// if it has that subcarrier.
pub fn squared_amplitude_for_subcarrier(packet: &CsiPacket, k: usize) -> (out: Option<u64>)
    ensures
        match sample_at(packet.csi_values@, k as nat) {
            Some((i, q)) => out == Some(squared_amplitude(i, q) as u64),
            None => out is None,
        },
{
    match iq_for_subcarrier(packet, k) {
        Some((i, q)) => Some(squared_amplitude_of(i, q)),
        None => None,
    }
}

/// The time of `packet` in microseconds since `first_ts`, on the wrapping
/// clock of the radio.
pub fn time_in_micros(first_ts: u64, packet: &CsiPacket) -> (out: u64)
    ensures
        out == micros_since(first_ts, packet.esp_timestamp),
{
    packet.esp_timestamp.wrapping_sub(first_ts)
}

} // verus!
