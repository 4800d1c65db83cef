//! What the distributor node and the authority say to each other, and the
//! decisions that each takes between receiving and answering.
//!
//! Sending, receiving and storing are the caller's business: every function
//! here takes what was received or fetched and returns what is to be sent
//! or stored.

use crate::builder::{spec_append, RfidBuilder};
use crate::bytes::{append_bytes, be_bytes, be_encode};
use crate::canon::{lit, push_decimal, push_lit, spec_decimal};
use crate::central_record::{spec_mirror_append, CentralRecord, CentralRecordView};
use crate::chain::spec_validate_chain;
use crate::error::AppendError;
use crate::key::{registry_key, PublicKey};
use crate::rfid::{spec_calc_crc, spec_encode, RfidData, RfidDataView};
use crate::signature::{
    create_signature, spec_create_signature, views_of, BlockChainEntry,
};
use std::collections::HashMap;
use vstd::prelude::*;
use vstd::slice::slice_to_vec;

verus! {

broadcast use vstd::std_specs::hash::group_hash_axioms;

/// Asks the authority for the keys of these distributors.
#[derive(Debug, Clone)]
pub struct KeyRequest {
    pub key_ids: Vec<u32>,
}

/// The keys that the authority found, by distributor id.
#[derive(Debug, Clone)]
pub struct KeyResponse {
    pub keys: HashMap<u32, PublicKey>,
}

/// Asks a distributor node to hand the chip on to `next_distributor`.
#[derive(Debug, Clone)]
pub struct UpdateBlockChainRequest {
    pub rfid_data: RfidData,
    pub next_distributor: u32,
}

/// The tag after the hand-off.
#[derive(Debug, Clone)]
pub struct UpdateBlockChainResponse {
    pub rfid_data: RfidData,
}

/// Reports a hand-off to the authority.
#[derive(Debug, Clone)]
pub struct UpdateRecordRequest {
    pub dist_id: u32,
    pub next_dist_id: u32,
    pub rfid_data: RfidData,
    /// The reporting distributor's signature over the rest of the request.
    pub signature: Vec<u8>,
}

/// The authority's answer to a report.
#[derive(Debug, Clone)]
pub struct UpdateRecordResponse {
    pub success: bool,
    /// The chip's ledger after the report, where the report was accepted.
    pub record: Option<CentralRecord>,
}

/// Why a distributor node did not hand a chip on.
#[derive(Debug, Clone, Copy, PartialEq, Eq, Structural)]
pub enum HandOffError {
    /// The node's own entry could not be appended.
    Append(AppendError),
    /// The chain with the node's entry does not validate at this position.
    Invalid(usize),
}

/// The signer ids of a tag's entries, in order.
pub open spec fn spec_signer_ids(p: RfidDataView) -> Seq<u32> {
    Seq::new(p.entries.len(), |i: int| p.entries[i].pub_key)
}

/// The ids whose keys a node needs for a hand-off: every signer on the tag,
/// then the next distributor, then the node itself.
pub open spec fn spec_hand_off_key_ids(p: RfidDataView, next_distributor: u32, key_id: u32) -> Seq<
    u32,
> {
    spec_signer_ids(p).push(next_distributor).push(key_id)
}

/// The tag that a hand-off produces, or why there is none: the node's entry
/// is appended, the checksum field is set, and the whole chain must then
/// validate with the next distributor's key closing it.
pub open spec fn spec_hand_off(
    p: RfidDataView,
    next_distributor: u32,
    key_id: u32,
    private_key: Seq<u8>,
    keys: Map<u32, PublicKey>,
) -> Result<RfidDataView, HandOffError> {
    match spec_append(p, private_key, key_id, next_distributor, keys) {
        Err(e) => Err(HandOffError::Append(e)),
        Ok(appended) => {
            let built = RfidDataView {
                crc: spec_calc_crc(appended),
                chip_data: appended.chip_data,
                entries: appended.entries,
            };
            match spec_validate_chain(built, keys, registry_key(keys, next_distributor)->0) {
                Ok(_) => Ok(built),
                Err(position) => Err(HandOffError::Invalid(position)),
            }
        },
    }
}

/// The view of the outcome of a hand-off.
pub open spec fn hand_off_view(r: Result<RfidData, HandOffError>) -> Result<
    RfidDataView,
    HandOffError,
> {
    match r {
        Ok(p) => Ok(p@),
        Err(e) => Err(e),
    }
}

/// The bytes of a report that its signature covers: the two ids in four
/// bytes each, most significant first, then the tag as on the wire.
pub open spec fn spec_report_bytes(dist_id: u32, next_dist_id: u32, p: RfidDataView) -> Seq<u8> {
    be_bytes(dist_id as nat, 4) + be_bytes(next_dist_id as nat, 4) + spec_encode(p)
}

/// The ledger that a report is recorded in: the stored one, or an empty
/// ledger for the tag's chip where none is stored.
pub open spec fn spec_ledger_for(stored: Option<CentralRecordView>, chip_id: u128) -> CentralRecordView {
    match stored {
        Some(r) => r,
        None => CentralRecordView { chip_id, entries: Seq::empty() },
    }
}

/// The ledger after an accepted report, or `None` where the report is
/// refused: the reported chain must validate with the next distributor's key
/// closing it, and the authority's entry must be appended.
pub open spec fn spec_record_update(
    dist_id: u32,
    next_dist_id: u32,
    p: RfidDataView,
    keys: Map<u32, PublicKey>,
    next_dist_key: Seq<u8>,
    stored: Option<CentralRecordView>,
    private_key: Seq<u8>,
    texts: Map<u32, Vec<u8>>,
) -> Option<CentralRecordView> {
    if spec_validate_chain(p, keys, next_dist_key) is Err {
        None
    } else {
        match spec_mirror_append(
            spec_ledger_for(stored, p.chip_data.chip_id),
            private_key,
            dist_id,
            next_dist_id,
            next_dist_key,
            p,
            texts,
        ) {
            Ok(after) => Some(after),
            Err(_) => None,
        }
    }
}

/// The view of an optional ledger.
pub open spec fn option_record_view(r: Option<CentralRecord>) -> Option<CentralRecordView> {
    match r {
        Some(r) => Some(r@),
        None => None,
    }
}

/// The signer ids of a tag's entries, in order.
pub fn signer_ids(rfid_data: &RfidData) -> (out: Vec<u32>)
    ensures
        out@ == spec_signer_ids(rfid_data@),
{
    let mut out: Vec<u32> = Vec::new();
    let mut i: usize = 0;
    while i < rfid_data.entries.len()
        invariant
            i <= rfid_data.entries@.len(),
            out@ == spec_signer_ids(rfid_data@).take(i as int),
        decreases rfid_data.entries@.len() - i,
    {
        proof {
            let ids = spec_signer_ids(rfid_data@);
            assert(ids.take(i + 1) =~= ids.take(i as int).push(rfid_data.entries@[i as int].pub_key));
        }
        out.push(rfid_data.entries[i].pub_key);
        i = i + 1;
    }
    assert(spec_signer_ids(rfid_data@).take(rfid_data.entries@.len() as int) =~= spec_signer_ids(
        rfid_data@,
    ));
    out
}

/// The text that a node answers with when the chain does not validate.
pub fn validation_failure_text(position: usize) -> (out: Vec<u8>)
    ensures
        out@ == lit("Failed to validate at position ") + spec_decimal(position as nat),
{
    let mut out: Vec<u8> = Vec::new();
    push_lit(&mut out, "Failed to validate at position ");
    push_decimal(&mut out, position as u128);
    out
}

impl KeyRequest {
    /// The request that a node sends before a hand-off.
    pub fn for_hand_off(rfid_data: &RfidData, next_distributor: u32, key_id: u32) -> (out: Self)
        ensures
            out.key_ids@ == spec_hand_off_key_ids(rfid_data@, next_distributor, key_id),
    {
        let mut key_ids = signer_ids(rfid_data);
        key_ids.push(next_distributor);
        key_ids.push(key_id);
        KeyRequest { key_ids }
    }
}

impl Default for KeyResponse {
    fn default() -> (out: Self)
        ensures
            out.keys@ == Map::<u32, PublicKey>::empty(),
    {
        KeyResponse { keys: HashMap::new() }
    }
}

impl KeyResponse {
    /// Takes in the outcome of looking one requested id up: a key that was
    /// found is entered under the requested id, a key that was not found is
    /// left out.
    pub fn record_lookup(&mut self, key_id: u32, found: Option<PublicKey>)
        ensures
            final(self).keys@ == match found {
                Some(key) => old(self).keys@.insert(key_id, key),
                None => old(self).keys@,
            },
    {
        match found {
            Some(key) => {
                self.keys.insert(key_id, key);
            },
            None => {},
        }
    }
}

impl UpdateBlockChainRequest {
    /// The node's part in a hand-off: appends the entry of distributor
    /// `key_id` naming `next_distributor`, sets the checksum field, and
    /// checks the whole chain against the keys received.
    pub fn hand_off(self, key_id: u32, private_key: Vec<u8>, keys: &HashMap<u32, PublicKey>) -> (out:
        Result<RfidData, HandOffError>)
        ensures
            hand_off_view(out) == spec_hand_off(
                self.rfid_data@,
                self.next_distributor,
                key_id,
                private_key@,
                keys@,
            ),
    {
        let next_distributor = self.next_distributor;
        let builder = RfidBuilder::from(self.rfid_data);
        let rfid_data = match builder.add_entry(private_key, key_id, next_distributor, keys) {
            Ok(builder) => builder.build(),
            Err(e) => {
                return Err(HandOffError::Append(e));
            },
        };
        let next_key = match keys.get(&next_distributor) {
            Some(key) => PublicKey {
                id: key.id,
                key: slice_to_vec(key.key.as_slice()),
                distributor_name: String::new(),
            },
            // An append that succeeded has found this key.
            None => {
                return Err(HandOffError::Append(AppendError::UnknownKey(next_distributor)));
            },
        };
        match rfid_data.validate_chain(keys, next_key) {
            Ok(_) => Ok(rfid_data),
            Err(position) => Err(HandOffError::Invalid(position)),
        }
    }
}

impl UpdateRecordRequest {
    /// The report of a hand-off, signed with the reporting distributor's
    /// private key; `None` where no 256-byte signature can be made with it.
    pub fn new(dist_id: u32, next_dist_id: u32, rfid_data: RfidData, private_key: &[u8]) -> (out:
        Option<Self>)
        ensures
            match out {
                Some(req) => {
                    &&& req.dist_id == dist_id
                    &&& req.next_dist_id == next_dist_id
                    &&& req.rfid_data == rfid_data
                    &&& spec_create_signature(
                        private_key@,
                        seq![spec_report_bytes(dist_id, next_dist_id, rfid_data@)],
                    ) == Some(req.signature@)
                },
                None => spec_create_signature(
                    private_key@,
                    seq![spec_report_bytes(dist_id, next_dist_id, rfid_data@)],
                ).is_none(),
            },
    {
        let mut req = UpdateRecordRequest { dist_id, next_dist_id, rfid_data, signature: Vec::new() };
        let bytes = req.to_bytes();
        let ghost signed = bytes@;
        let mut members: Vec<Vec<u8>> = Vec::new();
        members.push(bytes);
        assert(views_of(members@) =~= seq![signed]);
        match create_signature(private_key, &members) {
            Some(signature) => {
                req.signature = signature;
                Some(req)
            },
            None => None,
        }
    }

    /// The bytes that the report's signature covers.
    pub fn to_bytes(&self) -> (out: Vec<u8>)
        ensures
            out@ == spec_report_bytes(self.dist_id, self.next_dist_id, self.rfid_data@),
    {
        let mut out = be_encode(self.dist_id as u128, 4);
        let next = be_encode(self.next_dist_id as u128, 4);
        append_bytes(&mut out, next.as_slice());
        let tag = self.rfid_data.encode();
        append_bytes(&mut out, tag.as_slice());
        out
    }

    /// The authority's part in recording a report.
    ///
    /// `keys` holds what the registry has for the signers on the reported
    /// tag, `next_dist_key` the key of the next distributor, `stored` the
    /// chip's ledger if there is one. The report is accepted when the
    /// reported chain validates and the authority's entry can be appended;
    /// the answer then carries the ledger to store.
    pub fn record(
        self,
        keys: &HashMap<u32, PublicKey>,
        next_dist_key: PublicKey,
        stored: Option<CentralRecord>,
        private_key: Vec<u8>,
        texts: &HashMap<u32, Vec<u8>>,
    ) -> (out: UpdateRecordResponse)
        ensures
            option_record_view(out.record) == spec_record_update(
                self.dist_id,
                self.next_dist_id,
                self.rfid_data@,
                keys@,
                next_dist_key.key@,
                option_record_view(stored),
                private_key@,
                texts@,
            ),
            out.success == out.record.is_some(),
    {
        let next_pem = slice_to_vec(next_dist_key.key.as_slice());
        if self.rfid_data.validate_chain(keys, next_dist_key).is_err() {
            return UpdateRecordResponse { success: false, record: None };
        }
        let chip_id = self.rfid_data.chip_data.chip_id;
        let mut central_record = match stored {
            Some(record) => record,
            None => CentralRecord::new(chip_id),
        };
        match central_record.add_entry(
            private_key,
            self.dist_id,
            self.next_dist_id,
            next_pem,
            self.rfid_data,
            texts,
        ) {
            Ok(_) => UpdateRecordResponse { success: true, record: Some(central_record) },
            Err(_) => UpdateRecordResponse { success: false, record: None },
        }
    }
}

impl BlockChainEntry for UpdateRecordRequest {
    open spec fn spec_signature(&self) -> Seq<u8> {
        self.signature@
    }

    fn signature(&self) -> (out: Vec<u8>) {
        slice_to_vec(self.signature.as_slice())
    }
}

} // verus!
