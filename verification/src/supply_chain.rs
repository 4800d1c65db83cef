//! One hand-off entry of a tag: who signed, and the signature.
//!
//! On the tag an entry is 260 bytes: the signer's id in 4 bytes, least
//! significant first, then the 256 bytes of the signature.

use crate::bytes::{
    append_bytes, le_bytes, le_decode, le_encode, le_value, lemma_le_bytes_len,
    lemma_le_value_bound, lemma_le_value_of_bytes, lemma_pow256_widths,
};
use crate::error::RfidDataParseError;
use crate::signature::{
    create_signature, spec_create_signature, views_of, BlockChainEntry, SIGNATURE_SIZE,
};
use vstd::prelude::*;
use vstd::slice::{slice_subrange, slice_to_vec};

verus! {

/// Length in bytes of an entry on the tag.
pub const ENTRY_SIZE: usize = 260;

/// A distributor's touch on the tag.
#[derive(Debug, Clone)]
pub struct SupplyChainEntry {
    /// The id of the distributor that signed.
    pub pub_key: u32,
    /// The signature; 256 bytes in every entry that a tag can carry.
    pub signature: Vec<u8>,
}

/// The mathematical value of a `SupplyChainEntry`.
pub struct SupplyChainEntryView {
    pub pub_key: u32,
    pub signature: Seq<u8>,
}

impl View for SupplyChainEntry {
    type V = SupplyChainEntryView;

    open spec fn view(&self) -> SupplyChainEntryView {
        SupplyChainEntryView { pub_key: self.pub_key, signature: self.signature@ }
    }
}

impl SupplyChainEntryView {
    /// An entry is well formed when its signature has the one length that
    /// the tag layout has room for.
    pub open spec fn wf(self) -> bool {
        self.signature.len() == SIGNATURE_SIZE
    }
}

/// The bytes of an entry on the tag.
pub open spec fn spec_entry_bytes(e: SupplyChainEntryView) -> Seq<u8> {
    le_bytes(e.pub_key as nat, 4) + e.signature
}

/// The entry that the first 260 bytes of `bytes` hold.
pub open spec fn spec_entry_from(bytes: Seq<u8>) -> SupplyChainEntryView {
    SupplyChainEntryView {
        pub_key: le_value(bytes.subrange(0, 4)) as u32,
        signature: bytes.subrange(4, ENTRY_SIZE as int),
    }
}

/// Reading an entry: too few bytes are an error, surplus bytes are ignored.
pub open spec fn spec_parse_entry(bytes: Seq<u8>) -> Result<
    SupplyChainEntryView,
    RfidDataParseError,
> {
    if bytes.len() < ENTRY_SIZE {
        Err(RfidDataParseError::Truncated)
    } else {
        Ok(spec_entry_from(bytes))
    }
}

/// The view of the outcome of reading an entry.
pub open spec fn parsed_entry_view(r: Result<SupplyChainEntry, RfidDataParseError>) -> Result<
    SupplyChainEntryView,
    RfidDataParseError,
> {
    match r {
        Ok(e) => Ok(e@),
        Err(x) => Err(x),
    }
}

/// The view of an optional entry.
pub open spec fn option_entry_view(e: Option<SupplyChainEntry>) -> Option<SupplyChainEntryView> {
    match e {
        Some(e) => Some(e@),
        None => None,
    }
}

/// What `SupplyChainEntry::new` returns: the signer's id with the signature
/// over the chained data followed by the successor's key.
pub open spec fn spec_new_entry(
    private_key: Seq<u8>,
    next_public_key: Seq<u8>,
    rfid_data: Seq<u8>,
    public_key_id: u32,
) -> Option<SupplyChainEntryView> {
    match spec_create_signature(private_key, seq![rfid_data, next_public_key]) {
        Some(signature) => Some(SupplyChainEntryView { pub_key: public_key_id, signature }),
        None => None,
    }
}

pub proof fn lemma_entry_bytes_len(e: SupplyChainEntryView)
    requires
        e.wf(),
    ensures
        spec_entry_bytes(e).len() == ENTRY_SIZE,
{
    lemma_le_bytes_len(e.pub_key as nat, 4);
}

/// Reading a written entry gives the entry back, whatever follows it.
pub proof fn lemma_parse_entry_bytes(e: SupplyChainEntryView, rest: Seq<u8>)
    requires
        e.wf(),
    ensures
        spec_parse_entry(spec_entry_bytes(e) + rest) == Ok::<
            SupplyChainEntryView,
            RfidDataParseError,
        >(e),
{
    lemma_le_bytes_len(e.pub_key as nat, 4);
    lemma_pow256_widths();
    lemma_le_value_of_bytes(e.pub_key as nat, 4);
    let all = spec_entry_bytes(e) + rest;
    assert(all.subrange(0, 4) =~= le_bytes(e.pub_key as nat, 4));
    assert(all.subrange(4, ENTRY_SIZE as int) =~= e.signature);
}

impl SupplyChainEntry {
    /// Signs `rfid_data` followed by the successor's key and makes the entry
    /// of the signer `public_key_id`; `None` where no 256-byte signature can
    /// be made with `private_key`.
    pub fn new(
        private_key: Vec<u8>,
        next_public_key: Vec<u8>,
        rfid_data: Vec<u8>,
        public_key_id: u32,
    ) -> (out: Option<SupplyChainEntry>)
        ensures
            option_entry_view(out) == spec_new_entry(
                private_key@,
                next_public_key@,
                rfid_data@,
                public_key_id,
            ),
            out matches Some(e) ==> e@.wf(),
    {
        let ghost parts = seq![rfid_data@, next_public_key@];
        let mut members: Vec<Vec<u8>> = Vec::new();
        members.push(rfid_data);
        members.push(next_public_key);
        assert(views_of(members@) =~= parts);
        match create_signature(private_key.as_slice(), &members) {
            Some(signature) => Some(SupplyChainEntry { pub_key: public_key_id, signature }),
            None => None,
        }
    }

    /// The entry as it stands on the tag.
    pub fn to_bytes(&self) -> (out: Vec<u8>)
        ensures
            out@ == spec_entry_bytes(self@),
    {
        let mut out = le_encode(self.pub_key as u128, 4);
        append_bytes(&mut out, self.signature.as_slice());
        out
    }

    /// Reads an entry from the start of `bytes`; what follows it is ignored.
    pub fn from_bytes(bytes: &[u8]) -> (out: Result<SupplyChainEntry, RfidDataParseError>)
        ensures
            parsed_entry_view(out) == spec_parse_entry(bytes@),
    {
        if bytes.len() < ENTRY_SIZE {
            return Err(RfidDataParseError::Truncated);
        }
        let id: u128 = le_decode(bytes, 0, 4);
        proof {
            lemma_pow256_widths();
            lemma_le_value_bound(bytes@.subrange(0, 4));
        }
        let signature = slice_to_vec(slice_subrange(bytes, 4, ENTRY_SIZE));
        Ok(SupplyChainEntry { pub_key: id as u32, signature })
    }
}

impl BlockChainEntry for SupplyChainEntry {
    open spec fn spec_signature(&self) -> Seq<u8> {
        self.signature@
    }

    fn signature(&self) -> (out: Vec<u8>) {
        slice_to_vec(self.signature.as_slice())
    }
}

} // verus!
