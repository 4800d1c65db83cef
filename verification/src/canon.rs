//! The canonical serialization of tags: compact JSON, fields in declaration
//! order, integers as decimal literals, byte strings as padded base64 text.
//!
//! The authority signs these bytes, so they are fixed to the last comma.
//!
//! A telemetry reading is a single-precision number held as its bit pattern.
//! Its decimal text is not computed here: it is looked up in a table from
//! bit pattern to text, which the caller fills for the readings at hand.

use crate::bytes::append_bytes;
use crate::chip_data::ChipData;
use crate::rfid::{RfidData, RfidDataView};
use crate::supply_chain::{SupplyChainEntry, SupplyChainEntryView};
use std::collections::HashMap;
use vstd::prelude::*;
use vstd::string::StringSliceAdditionalSpecFns;

verus! {

broadcast use vstd::std_specs::hash::group_hash_axioms;

/// The base64 text of `bytes`: standard alphabet, padded.
pub uninterp spec fn base64_text(bytes: Seq<u8>) -> Seq<u8>;

/// The bytes of a piece of fixed text.
pub open spec fn lit(s: &str) -> Seq<u8> {
    s.spec_bytes()
}

/// The decimal digits of `n`, without leading zeros.
pub open spec fn spec_decimal(n: nat) -> Seq<u8>
    decreases n,
{
    if n < 10 {
        seq![(48 + n) as u8]
    } else {
        spec_decimal(n / 10).push((48 + n % 10) as u8)
    }
}

/// The items with a comma between each two.
pub open spec fn spec_joined(items: Seq<Seq<u8>>) -> Seq<u8>
    decreases items.len(),
{
    if items.len() == 0 {
        Seq::empty()
    } else if items.len() == 1 {
        items[0]
    } else {
        spec_joined(items.drop_last()) + lit(",") + items.last()
    }
}

/// Whether the table has a text for every reading of `c`.
pub open spec fn readings_known(texts: Map<u32, Vec<u8>>, c: ChipData) -> bool {
    &&& texts.contains_key(c.freq)
    &&& texts.contains_key(c.voltage)
    &&& texts.contains_key(c.temp)
    &&& texts.contains_key(c.time)
}

/// The canonical form of a telemetry block, with the readings' texts taken
/// from the table.
pub open spec fn spec_canon_chip(c: ChipData, texts: Map<u32, Vec<u8>>) -> Seq<u8> {
    lit("{\"chip_id\":") + spec_decimal(c.chip_id as nat) + lit(",\"freq\":") + texts[c.freq]@
        + lit(",\"voltage\":") + texts[c.voltage]@ + lit(",\"temp\":") + texts[c.temp]@ + lit(
        ",\"time\":",
    ) + texts[c.time]@ + lit("}")
}

/// The canonical form of a hand-off entry.
pub open spec fn spec_canon_entry(e: SupplyChainEntryView) -> Seq<u8> {
    lit("{\"pub_key\":") + spec_decimal(e.pub_key as nat) + lit(",\"signature\":\"") + base64_text(
        e.signature,
    ) + lit("\"}")
}

/// The canonical forms of a list of hand-off entries.
pub open spec fn spec_canon_entries(entries: Seq<SupplyChainEntryView>) -> Seq<Seq<u8>> {
    entries.map_values(|e: SupplyChainEntryView| spec_canon_entry(e))
}

/// The canonical form of a tag.
pub open spec fn spec_canon_rfid(p: RfidDataView, texts: Map<u32, Vec<u8>>) -> Seq<u8> {
    lit("{\"crc\":") + spec_decimal(p.crc as nat) + lit(",\"chip_data\":") + spec_canon_chip(
        p.chip_data,
        texts,
    ) + lit(",\"entries\":[") + spec_joined(spec_canon_entries(p.entries)) + lit("]}")
}

/// What `canon_rfid` returns: the canonical form where every reading has a
/// text, and nothing where one has none.
pub open spec fn spec_canon_rfid_checked(p: RfidDataView, texts: Map<u32, Vec<u8>>) -> Option<
    Seq<u8>,
> {
    if readings_known(texts, p.chip_data) {
        Some(spec_canon_rfid(p, texts))
    } else {
        None
    }
}

/// Encodes with `base64::encode`.
/// Trusted: the result holds the base64 text named `base64_text` of the
/// bytes given. `encode` gives up only where four thirds of the input's
/// length do not fit a `usize`, which the length of no slice reaches.
#[verifier::external_body]
fn base64_encode(bytes: &[u8]) -> (out: Vec<u8>)
    ensures
        out@ == base64_text(bytes@),
{
    base64::encode(bytes).into_bytes()
}

/// Appends the base64 text of `bytes`.
pub fn push_base64(buffer: &mut Vec<u8>, bytes: &[u8])
    ensures
        final(buffer)@ == old(buffer)@ + base64_text(bytes@),
{
    let text = base64_encode(bytes);
    append_bytes(buffer, text.as_slice());
}

/// Appends a piece of fixed text.
pub fn push_lit(buffer: &mut Vec<u8>, s: &str)
    ensures
        final(buffer)@ == old(buffer)@ + lit(s),
{
    append_bytes(buffer, s.as_bytes());
}

/// Appends the decimal digits of `n`.
pub fn push_decimal(buffer: &mut Vec<u8>, n: u128)
    ensures
        final(buffer)@ == old(buffer)@ + spec_decimal(n as nat),
{
    let mut digits: Vec<u8> = Vec::new();
    let mut rest: u128 = n;
    while rest >= 10
        invariant
            spec_decimal(n as nat) == spec_decimal(rest as nat) + digits@,
        decreases rest,
    {
        let digit: u8 = (48 + rest % 10) as u8;
        proof {
            assert(spec_decimal(rest as nat) + digits@ =~= spec_decimal(rest as nat / 10)
                + digits@.insert(0, digit));
        }
        digits.insert(0, digit);
        rest = rest / 10;
    }
    let first: u8 = (48 + rest) as u8;
    proof {
        assert(spec_decimal(rest as nat) + digits@ =~= digits@.insert(0, first));
    }
    digits.insert(0, first);
    append_bytes(buffer, digits.as_slice());
}

/// Appends the text of one reading.
fn push_reading(buffer: &mut Vec<u8>, texts: &HashMap<u32, Vec<u8>>, bits: u32) -> (known: bool)
    ensures
        known == texts@.contains_key(bits),
        known ==> final(buffer)@ == old(buffer)@ + texts@[bits]@,
        !known ==> final(buffer)@ == old(buffer)@,
{
    match texts.get(&bits) {
        Some(text) => {
            append_bytes(buffer, text.as_slice());
            true
        },
        None => false,
    }
}

/// Appends the canonical form of a telemetry block; reports whether every
/// reading had a text. Where one had none, what was appended is of no use.
pub fn push_canon_chip(buffer: &mut Vec<u8>, c: &ChipData, texts: &HashMap<u32, Vec<u8>>) -> (known:
    bool)
    ensures
        known == readings_known(texts@, *c),
        known ==> final(buffer)@ == old(buffer)@ + spec_canon_chip(*c, texts@),
{
    let ghost before = buffer@;
    push_lit(buffer, "{\"chip_id\":");
    push_decimal(buffer, c.chip_id);
    push_lit(buffer, ",\"freq\":");
    if !push_reading(buffer, texts, c.freq) {
        return false;
    }
    push_lit(buffer, ",\"voltage\":");
    if !push_reading(buffer, texts, c.voltage) {
        return false;
    }
    push_lit(buffer, ",\"temp\":");
    if !push_reading(buffer, texts, c.temp) {
        return false;
    }
    push_lit(buffer, ",\"time\":");
    if !push_reading(buffer, texts, c.time) {
        return false;
    }
    push_lit(buffer, "}");
    assert(buffer@ =~= before + spec_canon_chip(*c, texts@));
    true
}

/// Appends the canonical form of a hand-off entry.
pub fn push_canon_entry(buffer: &mut Vec<u8>, e: &SupplyChainEntry)
    ensures
        final(buffer)@ == old(buffer)@ + spec_canon_entry(e@),
{
    let ghost before = buffer@;
    push_lit(buffer, "{\"pub_key\":");
    push_decimal(buffer, e.pub_key as u128);
    push_lit(buffer, ",\"signature\":\"");
    push_base64(buffer, e.signature.as_slice());
    push_lit(buffer, "\"}");
    assert(buffer@ =~= before + spec_canon_entry(e@));
}

/// Joining one more item: a comma goes before it unless it is the first.
pub proof fn lemma_joined_push(items: Seq<Seq<u8>>, item: Seq<u8>)
    ensures
        spec_joined(items.push(item)) == if items.len() == 0 {
            item
        } else {
            spec_joined(items) + lit(",") + item
        },
{
    assert(items.push(item).drop_last() =~= items);
}

/// Appends the canonical form of a tag; reports whether every reading had a
/// text. Where one had none, what was appended is of no use.
pub fn push_canon_rfid(buffer: &mut Vec<u8>, p: &RfidData, texts: &HashMap<u32, Vec<u8>>) -> (known:
    bool)
    ensures
        known == readings_known(texts@, p.chip_data),
        known ==> final(buffer)@ == old(buffer)@ + spec_canon_rfid(p@, texts@),
{
    let ghost before = buffer@;
    push_lit(buffer, "{\"crc\":");
    push_decimal(buffer, p.crc as u128);
    push_lit(buffer, ",\"chip_data\":");
    if !push_canon_chip(buffer, &p.chip_data, texts) {
        return false;
    }
    push_lit(buffer, ",\"entries\":[");
    let ghost head = buffer@;
    let ghost items = spec_canon_entries(p@.entries);
    let count: usize = p.entries.len();
    let mut i: usize = 0;
    while i < count
        invariant
            i <= count == p.entries@.len(),
            items == spec_canon_entries(p@.entries),
            buffer@ == head + spec_joined(items.take(i as int)),
        decreases count - i,
    {
        proof {
            assert(items.take(i + 1) =~= items.take(i as int).push(items[i as int]));
            lemma_joined_push(items.take(i as int), items[i as int]);
            assert(items[i as int] == spec_canon_entry(p.entries@[i as int]@));
        }
        if i > 0 {
            push_lit(buffer, ",");
        }
        push_canon_entry(buffer, &p.entries[i]);
        assert(buffer@ =~= head + spec_joined(items.take(i + 1)));
        i = i + 1;
    }
    assert(items.take(count as int) =~= items);
    push_lit(buffer, "]}");
    assert(buffer@ =~= before + spec_canon_rfid(p@, texts@));
    true
}

/// The canonical form of a tag, or `None` where the table lacks the text of
/// one of its readings.
pub fn canon_rfid(p: &RfidData, texts: &HashMap<u32, Vec<u8>>) -> (out: Option<Vec<u8>>)
    ensures
        crate::signature::option_bytes(out) == spec_canon_rfid_checked(p@, texts@),
{
    let mut out: Vec<u8> = Vec::new();
    if push_canon_rfid(&mut out, p, texts) {
        assert(out@ =~= spec_canon_rfid(p@, texts@));
        Some(out)
    } else {
        None
    }
}

} // verus!
