//! Reading the battery voltage from the power-management chip's ADC
//! registers.
use vstd::prelude::*;

verus! {

/// Whether the event register reports a finished battery measurement
/// (its lowest bit).
pub fn vbat_measurement_ready(events: u8) -> (ready: bool)
    ensures
        ready == (events % 2 == 1),
{
    let ready = events & 0x01 == 1;
    assert(ready == (events % 2 == 1)) by (bit_vector)
        requires
            ready == (events & 0x01 == 1);
    ready
}

/// The 10-bit raw battery measurement: the eight bits of the high register
/// above the two lowest bits of the low register.
pub fn vbat_raw(msb: u8, lsbs: u8) -> (raw: u16)
    ensures
        raw == msb * 4 + lsbs % 4,
        raw < 1024,
{
    let raw: u16 = (msb as u16) << 2 | (lsbs & 0x3) as u16;
    assert(raw == msb * 4 + lsbs % 4 && raw < 1024) by (bit_vector)
        requires
            raw == (msb as u16) << 2 | (lsbs & 0x3) as u16;
    raw
}

} // verus!
