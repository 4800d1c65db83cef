//! The telemetry block of a tag: the chip's id and four readings.
//!
//! A reading is held as the bit pattern of an IEEE 754 single-precision
//! number, which is what the tag stores. The block is 32 bytes, big-endian.

use crate::bytes::{
    append_bytes, be_bytes, be_decode, be_encode, be_value, lemma_be_bytes_len, lemma_be_value_bound,
    lemma_be_value_of_bytes, lemma_pow256_widths,
};
use crate::error::RfidDataParseError;
use vstd::prelude::*;

verus! {

/// Length in bytes of the telemetry block.
pub const CHIP_DATA_SIZE: usize = 32;

/// Telemetry fixed at manufacture.
#[derive(Debug, Clone, Copy, PartialEq, Eq, Structural)]
pub struct ChipData {
    pub chip_id: u128,
    /// Bit pattern of the frequency reading.
    pub freq: u32,
    /// Bit pattern of the voltage reading.
    pub voltage: u32,
    /// Bit pattern of the temperature reading.
    pub temp: u32,
    /// Bit pattern of the time reading.
    pub time: u32,
}

/// The 32 bytes of a telemetry block: the id in 16 bytes, then each reading
/// in 4, all most significant byte first.
pub open spec fn spec_chip_bytes(c: ChipData) -> Seq<u8> {
    be_bytes(c.chip_id as nat, 16) + be_bytes(c.freq as nat, 4) + be_bytes(c.voltage as nat, 4)
        + be_bytes(c.temp as nat, 4) + be_bytes(c.time as nat, 4)
}

/// The telemetry that the first 32 bytes of `bytes` hold.
pub open spec fn spec_parse_chip(bytes: Seq<u8>) -> Result<ChipData, RfidDataParseError> {
    if bytes.len() < CHIP_DATA_SIZE {
        Err(RfidDataParseError::Truncated)
    } else {
        Ok(
            ChipData {
                chip_id: be_value(bytes.subrange(0, 16)) as u128,
                freq: be_value(bytes.subrange(16, 20)) as u32,
                voltage: be_value(bytes.subrange(20, 24)) as u32,
                temp: be_value(bytes.subrange(24, 28)) as u32,
                time: be_value(bytes.subrange(28, 32)) as u32,
            },
        )
    }
}

pub proof fn lemma_chip_bytes_len(c: ChipData)
    ensures
        spec_chip_bytes(c).len() == CHIP_DATA_SIZE,
{
    lemma_be_bytes_len(c.chip_id as nat, 16);
    lemma_be_bytes_len(c.freq as nat, 4);
    lemma_be_bytes_len(c.voltage as nat, 4);
    lemma_be_bytes_len(c.temp as nat, 4);
    lemma_be_bytes_len(c.time as nat, 4);
}

/// Reading a written block gives the telemetry back, whatever follows it.
pub proof fn lemma_parse_chip_bytes(c: ChipData, rest: Seq<u8>)
    ensures
        spec_parse_chip(spec_chip_bytes(c) + rest) == Ok::<ChipData, RfidDataParseError>(c),
{
    lemma_chip_bytes_len(c);
    lemma_be_bytes_len(c.chip_id as nat, 16);
    lemma_be_bytes_len(c.freq as nat, 4);
    lemma_be_bytes_len(c.voltage as nat, 4);
    lemma_be_bytes_len(c.temp as nat, 4);
    lemma_be_bytes_len(c.time as nat, 4);
    lemma_pow256_widths();
    let all = spec_chip_bytes(c) + rest;
    assert(all.subrange(0, 16) =~= be_bytes(c.chip_id as nat, 16));
    assert(all.subrange(16, 20) =~= be_bytes(c.freq as nat, 4));
    assert(all.subrange(20, 24) =~= be_bytes(c.voltage as nat, 4));
    assert(all.subrange(24, 28) =~= be_bytes(c.temp as nat, 4));
    assert(all.subrange(28, 32) =~= be_bytes(c.time as nat, 4));
    lemma_be_value_of_bytes(c.chip_id as nat, 16);
    lemma_be_value_of_bytes(c.freq as nat, 4);
    lemma_be_value_of_bytes(c.voltage as nat, 4);
    lemma_be_value_of_bytes(c.temp as nat, 4);
    lemma_be_value_of_bytes(c.time as nat, 4);
}

impl Default for ChipData {
    fn default() -> (out: Self)
        ensures
            out == (ChipData { chip_id: 0, freq: 0, voltage: 0, temp: 0, time: 0 }),
    {
        ChipData { chip_id: 0, freq: 0, voltage: 0, temp: 0, time: 0 }
    }
}

impl ChipData {
    /// The block as it stands on the tag.
    pub fn to_bytes(&self) -> (out: Vec<u8>)
        ensures
            out@ == spec_chip_bytes(*self),
            out@.len() == CHIP_DATA_SIZE,
    {
        let mut out = be_encode(self.chip_id, 16);
        let freq = be_encode(self.freq as u128, 4);
        let voltage = be_encode(self.voltage as u128, 4);
        let temp = be_encode(self.temp as u128, 4);
        let time = be_encode(self.time as u128, 4);
        append_bytes(&mut out, freq.as_slice());
        append_bytes(&mut out, voltage.as_slice());
        append_bytes(&mut out, temp.as_slice());
        append_bytes(&mut out, time.as_slice());
        proof {
            lemma_chip_bytes_len(*self);
        }
        out
    }

    /// Reads a block from the start of `bytes`; what follows it is ignored.
    pub fn from_bytes(bytes: &[u8]) -> (out: Result<ChipData, RfidDataParseError>)
        ensures
            out == spec_parse_chip(bytes@),
    {
        if bytes.len() < CHIP_DATA_SIZE {
            return Err(RfidDataParseError::Truncated);
        }
        let chip_id = be_decode(bytes, 0, 16);
        let freq = be_decode(bytes, 16, 4);
        let voltage = be_decode(bytes, 20, 4);
        let temp = be_decode(bytes, 24, 4);
        let time = be_decode(bytes, 28, 4);
        proof {
            lemma_pow256_widths();
            lemma_be_value_bound(bytes@.subrange(16, 20));
            lemma_be_value_bound(bytes@.subrange(20, 24));
            lemma_be_value_bound(bytes@.subrange(24, 28));
            lemma_be_value_bound(bytes@.subrange(28, 32));
        }
        Ok(
            ChipData {
                chip_id,
                freq: freq as u32,
                voltage: voltage as u32,
                temp: temp as u32,
                time: time as u32,
            },
        )
    }
}

} // verus!
