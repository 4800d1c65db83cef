//! The tag: a checksum, the telemetry block and the chain of hand-off
//! entries, with its wire layout.
//!
//! ```text
//! [0..2)   checksum field
//! [2..4)   number of entries, big-endian
//! [4..36)  telemetry block
//! [36..)   the entries, 260 bytes each
//! ```
//!
//! The checksum is CRC-16/X-25 over everything after the checksum field.
//! Unlike the other counters of the layout, the field holds it low-order
//! byte first; `crc` in `RfidData` is the field read as a big-endian number,
//! so it is the checksum with its two bytes exchanged.

use crate::bytes::{
    append_bytes, be_bytes, be_decode, be_encode, be_value, lemma_be_bytes_len,
    lemma_be_value_bound, lemma_be_value_of_bytes, lemma_pow256_widths,
};
use crate::chip_data::{
    lemma_chip_bytes_len, lemma_parse_chip_bytes, spec_chip_bytes, spec_parse_chip, ChipData,
    };
use crate::error::RfidDataParseError;
use crate::supply_chain::{
    lemma_entry_bytes_len, lemma_parse_entry_bytes, spec_entry_bytes, spec_entry_from,
    SupplyChainEntry, SupplyChainEntryView, ENTRY_SIZE,
};
use vstd::prelude::*;
use vstd::slice::slice_subrange;

verus! {

/// Length in bytes of a tag without entries.
pub const HEADER_SIZE: usize = 36;

/// The most entries that a tag's counter can express.
pub const MAX_ENTRIES: usize = 65535;

/// The CRC-16/X-25 checksum of `bytes`.
pub uninterp spec fn crc16_x25(bytes: Seq<u8>) -> u16;

/// The tag's contents.
#[derive(Debug, Clone)]
pub struct RfidData {
    /// The checksum field, read as a big-endian number.
    pub crc: u16,
    pub chip_data: ChipData,
    /// The hand-off entries, oldest first.
    pub entries: Vec<SupplyChainEntry>,
}

/// The mathematical value of an `RfidData`.
pub struct RfidDataView {
    pub crc: u16,
    pub chip_data: ChipData,
    pub entries: Seq<SupplyChainEntryView>,
}

/// The views of a list of entries.
pub open spec fn entry_views(entries: Seq<SupplyChainEntry>) -> Seq<SupplyChainEntryView> {
    entries.map_values(|e: SupplyChainEntry| e@)
}

impl View for RfidData {
    type V = RfidDataView;

    open spec fn view(&self) -> RfidDataView {
        RfidDataView {
            crc: self.crc,
            chip_data: self.chip_data,
            entries: entry_views(self.entries@),
        }
    }
}

impl RfidDataView {
    /// A tag is well formed when its counter can express the number of its
    /// entries and every signature has its 256 bytes.
    pub open spec fn wf(self) -> bool {
        &&& self.entries.len() <= MAX_ENTRIES
        &&& forall|i: int| 0 <= i < self.entries.len() ==> (#[trigger] self.entries[i]).wf()
    }

    /// Whether the checksum field agrees with the rest of the tag.
    pub open spec fn crc_valid(self) -> bool {
        self.crc == spec_calc_crc(self)
    }
}

/// The entries' bytes, one entry after the other.
pub open spec fn spec_entries_bytes(entries: Seq<SupplyChainEntryView>) -> Seq<u8>
    decreases entries.len(),
{
    if entries.len() == 0 {
        Seq::empty()
    } else {
        spec_entries_bytes(entries.drop_last()) + spec_entry_bytes(entries.last())
    }
}

/// Everything that follows the checksum field: the counter, the telemetry
/// block and the entries. The counter holds the number of entries in its 16
/// low-order bits.
pub open spec fn spec_body(p: RfidDataView) -> Seq<u8> {
    be_bytes(p.entries.len(), 2) + spec_chip_bytes(p.chip_data) + spec_entries_bytes(p.entries)
}

/// The value of the checksum field for a checksum: its two bytes exchanged.
pub open spec fn spec_crc_field(checksum: u16) -> u16 {
    ((checksum % 256) * 256 + checksum / 256) as u16
}

/// The value that the checksum field of `p` must have.
pub open spec fn spec_calc_crc(p: RfidDataView) -> u16 {
    spec_crc_field(crc16_x25(spec_body(p)))
}

/// The tag on the wire. The checksum field is computed from the rest; the
/// `crc` that `p` carries is not consulted.
pub open spec fn spec_encode(p: RfidDataView) -> Seq<u8> {
    be_bytes(spec_calc_crc(p) as nat, 2) + spec_body(p)
}

/// The number of entries that the counter of a tag of at least 36 bytes
/// announces.
pub open spec fn spec_entry_count(bytes: Seq<u8>) -> nat {
    be_value(bytes.subrange(2, 4))
}

/// The number of bytes that a tag announcing `count` entries takes up.
pub open spec fn spec_wire_len(count: nat) -> nat {
    HEADER_SIZE as nat + ENTRY_SIZE as nat * count
}

/// The tag that `bytes` hold: too few bytes for the header or for the
/// announced entries are an error, surplus bytes are ignored.
pub open spec fn spec_decode(bytes: Seq<u8>) -> Result<RfidDataView, RfidDataParseError> {
    if bytes.len() < HEADER_SIZE {
        Err(RfidDataParseError::Truncated)
    } else if bytes.len() < spec_wire_len(spec_entry_count(bytes)) {
        Err(RfidDataParseError::Truncated)
    } else {
        Ok(
            RfidDataView {
                crc: be_value(bytes.subrange(0, 2)) as u16,
                chip_data: spec_parse_chip(bytes.subrange(4, HEADER_SIZE as int))->Ok_0,
                entries: Seq::new(
                    spec_entry_count(bytes),
                    |i: int|
                        spec_entry_from(
                            bytes.subrange(
                                HEADER_SIZE + ENTRY_SIZE * i,
                                HEADER_SIZE + ENTRY_SIZE * (i + 1),
                            ),
                        ),
                ),
            },
        )
    }
}

/// The view of the outcome of reading a tag.
pub open spec fn parsed_view(r: Result<RfidData, RfidDataParseError>) -> Result<
    RfidDataView,
    RfidDataParseError,
> {
    match r {
        Ok(p) => Ok(p@),
        Err(x) => Err(x),
    }
}

pub proof fn lemma_entries_bytes_len(entries: Seq<SupplyChainEntryView>)
    requires
        forall|i: int| 0 <= i < entries.len() ==> (#[trigger] entries[i]).wf(),
    ensures
        spec_entries_bytes(entries).len() == ENTRY_SIZE * entries.len(),
    decreases entries.len(),
{
    if entries.len() > 0 {
        lemma_entries_bytes_len(entries.drop_last());
        lemma_entry_bytes_len(entries.last());
    }
}

/// In the bytes of well-formed entries, the `i`-th block of 260 bytes is the
/// `i`-th entry.
pub proof fn lemma_entries_bytes_block(entries: Seq<SupplyChainEntryView>, i: int)
    requires
        forall|j: int| 0 <= j < entries.len() ==> (#[trigger] entries[j]).wf(),
        0 <= i < entries.len(),
    ensures
        spec_entries_bytes(entries).len() == ENTRY_SIZE * entries.len(),
        spec_entries_bytes(entries).subrange(ENTRY_SIZE * i, ENTRY_SIZE * (i + 1))
            == spec_entry_bytes(entries[i]),
    decreases entries.len(),
{
    lemma_entries_bytes_len(entries);
    lemma_entries_bytes_len(entries.drop_last());
    lemma_entry_bytes_len(entries.last());
    let all = spec_entries_bytes(entries);
    let front = spec_entries_bytes(entries.drop_last());
    if i == entries.len() - 1 {
        assert(all.subrange(ENTRY_SIZE * i, ENTRY_SIZE * (i + 1)) =~= spec_entry_bytes(
            entries.last(),
        ));
    } else {
        lemma_entries_bytes_block(entries.drop_last(), i);
        assert(all.subrange(ENTRY_SIZE * i, ENTRY_SIZE * (i + 1)) =~= front.subrange(
            ENTRY_SIZE * i,
            ENTRY_SIZE * (i + 1),
        ));
    }
}

pub proof fn lemma_encode_len(p: RfidDataView)
    requires
        p.wf(),
    ensures
        spec_encode(p).len() == spec_wire_len(p.entries.len()),
{
    lemma_be_bytes_len(spec_calc_crc(p) as nat, 2);
    lemma_be_bytes_len(p.entries.len(), 2);
    lemma_chip_bytes_len(p.chip_data);
    lemma_entries_bytes_len(p.entries);
}

/// Reading a written tag gives back the telemetry and the entries, with the
/// checksum field that belongs to them, whatever follows the tag: what is
/// read from a written tag always has a right checksum.
pub proof fn lemma_decode_encode_any_crc(p: RfidDataView, rest: Seq<u8>)
    requires
        p.wf(),
    ensures
        spec_decode(spec_encode(p) + rest) == Ok::<RfidDataView, RfidDataParseError>(
            RfidDataView { crc: spec_calc_crc(p), chip_data: p.chip_data, entries: p.entries },
        ),
        spec_decode(spec_encode(p) + rest)->Ok_0.crc_valid(),
{
    let n = p.entries.len();
    let crc = spec_calc_crc(p);
    let bytes = spec_encode(p) + rest;
    lemma_encode_len(p);
    lemma_be_bytes_len(crc as nat, 2);
    lemma_be_bytes_len(n, 2);
    lemma_chip_bytes_len(p.chip_data);
    lemma_entries_bytes_len(p.entries);
    lemma_pow256_widths();
    lemma_be_value_of_bytes(crc as nat, 2);
    lemma_be_value_of_bytes(n, 2);
    assert(bytes.subrange(0, 2) =~= be_bytes(crc as nat, 2));
    assert(bytes.subrange(2, 4) =~= be_bytes(n, 2));
    assert(spec_entry_count(bytes) == n);
    let tail = spec_entries_bytes(p.entries) + rest;
    assert(bytes.subrange(4, HEADER_SIZE as int) =~= spec_chip_bytes(p.chip_data));
    lemma_parse_chip_bytes(p.chip_data, Seq::empty());
    assert(spec_chip_bytes(p.chip_data) + Seq::<u8>::empty() =~= spec_chip_bytes(p.chip_data));
    let decoded = spec_decode(bytes)->Ok_0;
    assert(decoded.entries =~= p.entries) by {
        assert forall|i: int| 0 <= i < n implies decoded.entries[i] == p.entries[i] by {
            lemma_entries_bytes_block(p.entries, i);
            let block = bytes.subrange(HEADER_SIZE + ENTRY_SIZE * i, HEADER_SIZE + ENTRY_SIZE * (i + 1));
            assert(block =~= spec_entries_bytes(p.entries).subrange(
                ENTRY_SIZE * i,
                ENTRY_SIZE * (i + 1),
            ));
            lemma_parse_entry_bytes(p.entries[i], Seq::empty());
            assert(spec_entry_bytes(p.entries[i]) + Seq::<u8>::empty() =~= spec_entry_bytes(
                p.entries[i],
            ));
        }
    }
}

/// Decoding is the inverse of encoding on every well-formed tag whose
/// checksum field is right, and bytes after the tag do not matter.
pub proof fn lemma_decode_encode(p: RfidDataView, rest: Seq<u8>)
    requires
        p.wf(),
        p.crc_valid(),
    ensures
        spec_decode(spec_encode(p) + rest) == Ok::<RfidDataView, RfidDataParseError>(p),
        spec_decode(spec_encode(p)) == Ok::<RfidDataView, RfidDataParseError>(p),
{
    lemma_decode_encode_any_crc(p, rest);
    lemma_decode_encode_any_crc(p, Seq::empty());
    assert(spec_encode(p) + Seq::<u8>::empty() =~= spec_encode(p));
}

/// What is read from a tag's bytes is well formed.
pub proof fn lemma_decoded_wf(bytes: Seq<u8>)
    requires
        spec_decode(bytes) is Ok,
    ensures
        spec_decode(bytes)->Ok_0.wf(),
{
    lemma_pow256_widths();
    lemma_be_value_bound(bytes.subrange(2, 4));
}

/// Computes CRC-16/X-25 with `crc::crc16::checksum_x25`.
/// Trusted: the result is the checksum named `crc16_x25` of the bytes given.
#[verifier::external_body]
fn checksum_x25(bytes: &[u8]) -> (out: u16)
    ensures
        out == crc16_x25(bytes@),
{
    crc::crc16::checksum_x25(bytes)
}

/// The value of the checksum field for a computed checksum.
///
/// The field holds the checksum low-order byte first, and is read back as a
/// big-endian number: the result is the checksum with its bytes exchanged.
pub fn crc_field(checksum: u16) -> (out: u16)
    ensures
        out == spec_crc_field(checksum),
{
    (checksum % 256) * 256 + checksum / 256
}

impl Default for RfidData {
    fn default() -> (out: Self)
        ensures
            out@ == (RfidDataView {
                crc: 0,
                chip_data: ChipData { chip_id: 0, freq: 0, voltage: 0, temp: 0, time: 0 },
                entries: Seq::empty(),
            }),
    {
        let out = RfidData { crc: 0, chip_data: ChipData::default(), entries: Vec::new() };
        assert(out@.entries =~= Seq::empty());
        out
    }
}

impl RfidData {
    /// Everything that follows the checksum field on the wire.
    pub fn body_bytes(&self) -> (out: Vec<u8>)
        ensures
            out@ == spec_body(self@),
    {
        let count: usize = self.entries.len();
        let mut out = be_encode((count % 65536) as u128, 2);
        proof {
            lemma_be_bytes_low(count as nat);
        }
        let chip = self.chip_data.to_bytes();
        append_bytes(&mut out, chip.as_slice());
        let ghost header = out@;
        let ghost views = entry_views(self.entries@);
        let mut i: usize = 0;
        while i < count
            invariant
                i <= count == self.entries@.len(),
                views == entry_views(self.entries@),
                out@ == header + spec_entries_bytes(views.take(i as int)),
            decreases count - i,
        {
            proof {
                assert(views.take(i + 1).drop_last() =~= views.take(i as int));
                assert(views.take(i + 1).last() == self.entries@[i as int]@);
                assert(header + spec_entries_bytes(views.take(i + 1)) =~= header
                    + spec_entries_bytes(views.take(i as int)) + spec_entry_bytes(
                    self.entries@[i as int]@,
                ));
            }
            let entry = self.entries[i].to_bytes();
            append_bytes(&mut out, entry.as_slice());
            i = i + 1;
        }
        assert(views.take(count as int) =~= views);
        out
    }

    /// The value that the checksum field must have for this telemetry and
    /// these entries.
    pub fn calc_crc(&self) -> (out: u16)
        ensures
            out == spec_calc_crc(self@),
    {
        let body = self.body_bytes();
        crc_field(checksum_x25(body.as_slice()))
    }

    /// Whether the checksum field agrees with the rest of the tag.
    pub fn valid_crc(&self) -> (out: bool)
        ensures
            out == self@.crc_valid(),
    {
        self.crc == self.calc_crc()
    }

    /// The tag on the wire, with a freshly computed checksum field.
    pub fn encode(&self) -> (out: Vec<u8>)
        ensures
            out@ == spec_encode(self@),
    {
        let body = self.body_bytes();
        let field = crc_field(checksum_x25(body.as_slice()));
        let mut out = be_encode(field as u128, 2);
        append_bytes(&mut out, body.as_slice());
        out
    }

    /// Reads a tag from the start of `bytes`.
    ///
    /// Fails with `Truncated` exactly when `bytes` are too short for the
    /// header or for the entries that the header announces. Bytes after the
    /// tag are ignored, and the checksum field is read, not checked.
    pub fn decode(bytes: &[u8]) -> (out: Result<RfidData, RfidDataParseError>)
        ensures
            parsed_view(out) == spec_decode(bytes@),
            out matches Ok(p) ==> p@.wf(),
    {
        if bytes.len() < HEADER_SIZE {
            return Err(RfidDataParseError::Truncated);
        }
        let crc: u128 = be_decode(bytes, 0, 2);
        let announced: u128 = be_decode(bytes, 2, 2);
        proof {
            lemma_pow256_widths();
            lemma_be_value_bound(bytes@.subrange(0, 2));
            lemma_be_value_bound(bytes@.subrange(2, 4));
        }
        let count: usize = announced as usize;
        if bytes.len() < HEADER_SIZE + ENTRY_SIZE * count {
            return Err(RfidDataParseError::Truncated);
        }
        let chip_data = match ChipData::from_bytes(slice_subrange(bytes, 4, HEADER_SIZE)) {
            Ok(chip_data) => chip_data,
            Err(e) => {
                return Err(e);
            },
        };
        let ghost expected = spec_decode(bytes@)->Ok_0;
        let mut entries: Vec<SupplyChainEntry> = Vec::new();
        let mut i: usize = 0;
        while i < count
            invariant
                i <= count <= MAX_ENTRIES,
                HEADER_SIZE + ENTRY_SIZE * count <= bytes@.len(),
                spec_decode(bytes@) == Ok::<RfidDataView, RfidDataParseError>(expected),
                expected.entries.len() == count,
                entry_views(entries@) =~= expected.entries.take(i as int),
            decreases count - i,
        {
            let start: usize = HEADER_SIZE + ENTRY_SIZE * i;
            let block = slice_subrange(bytes, start, start + ENTRY_SIZE);
            let entry = match SupplyChainEntry::from_bytes(block) {
                Ok(entry) => entry,
                Err(e) => {
                    return Err(e);
                },
            };
            proof {
                assert(expected.entries.take(i + 1) =~= expected.entries.take(i as int).push(
                    expected.entries[i as int],
                ));
                assert(entry_views(entries@.push(entry)) =~= entry_views(entries@).push(entry@));
            }
            entries.push(entry);
            i = i + 1;
        }
        assert(expected.entries.take(count as int) =~= expected.entries);
        proof {
            lemma_decoded_wf(bytes@);
        }
        Ok(RfidData { crc: crc as u16, chip_data, entries })
    }
}

/// The two-byte counter of a number shows that number's 16 low-order bits.
pub proof fn lemma_be_bytes_low(n: nat)
    ensures
        be_bytes(n % 65536, 2) == be_bytes(n, 2),
{
    reveal_with_fuel(be_bytes, 3);
    assert((n % 65536) % 256 == n % 256) by (nonlinear_arith);
    assert(((n % 65536) / 256) % 256 == (n / 256) % 256) by (nonlinear_arith);
    assert(be_bytes(n % 65536, 2) =~= be_bytes(n, 2));
}

} // verus!
