//! Building a tag: set the telemetry, append hand-off entries one at a time,
//! and finish by setting the checksum field.

use crate::chain::{
    lemma_entry_verdict_is_local, lemma_first_failure, link_data, spec_chain_message,
    spec_entry_verifies, spec_link_data, spec_validate_chain,
};
use crate::chip_data::ChipData;
use crate::error::AppendError;
use crate::key::{lookup_key, registry_key, PublicKey};
use crate::rfid::{entry_views, spec_calc_crc, RfidData, RfidDataView, MAX_ENTRIES};
use crate::signature::{concat_all, spec_verify_signature};
use crate::supply_chain::{spec_new_entry, SupplyChainEntry};
use std::collections::HashMap;
use vstd::prelude::*;
use vstd::slice::slice_to_vec;

verus! {

/// A tag under construction.
pub struct RfidBuilder {
    rfid_data: RfidData,
}

impl View for RfidBuilder {
    type V = RfidDataView;

    closed spec fn view(&self) -> RfidDataView {
        self.rfid_data@
    }
}

/// The tag after one more hand-off, or why there is none.
///
/// The new entry is signed with `private_key` over what the next position
/// of the chain signs, followed by the registry's key for `next_id`. The
/// checks come in this order: room on the tag; the previous signer's key
/// (`UnknownKey` with its id); the previous signature opens (`Crypto`); the
/// successor's key (`UnknownKey` with `next_id`); a 256-byte signature can
/// be made (`Crypto`). The checksum field is left as it is.
pub open spec fn spec_append(
    p: RfidDataView,
    private_key: Seq<u8>,
    signer_id: u32,
    next_id: u32,
    keys: Map<u32, PublicKey>,
) -> Result<RfidDataView, AppendError> {
    let n = p.entries.len() as int;
    if n >= MAX_ENTRIES {
        Err(AppendError::Full)
    } else if n > 0 && registry_key(keys, p.entries[n - 1].pub_key).is_none() {
        Err(AppendError::UnknownKey(p.entries[n - 1].pub_key))
    } else {
        match spec_link_data(p, keys, n) {
            None => Err(AppendError::Crypto),
            Some(data) => match registry_key(keys, next_id) {
                None => Err(AppendError::UnknownKey(next_id)),
                Some(next_key) => match spec_new_entry(private_key, next_key, data, signer_id) {
                    None => Err(AppendError::Crypto),
                    Some(entry) => Ok(
                        RfidDataView {
                            crc: p.crc,
                            chip_data: p.chip_data,
                            entries: p.entries.push(entry),
                        },
                    ),
                },
            },
        }
    }
}

/// The view of the outcome of an append.
pub open spec fn appended_view(r: Result<RfidBuilder, AppendError>) -> Result<
    RfidDataView,
    AppendError,
> {
    match r {
        Ok(b) => Ok(b@),
        Err(e) => Err(e),
    }
}

/// Two parts joined are the first followed by the second.
pub proof fn lemma_concat_pair(a: Seq<u8>, b: Seq<u8>)
    ensures
        concat_all(seq![a, b]) == a + b,
{
    let parts = seq![a, b];
    assert(parts.drop_last() =~= seq![a]);
    assert(seq![a].drop_last() =~= Seq::<Seq<u8>>::empty());
    reveal_with_fuel(concat_all, 3);
    assert(concat_all(parts) =~= a + b);
}

/// An append adds one well-formed entry of the signer at the end, keeps
/// everything that was on the tag, and the new entry's signature is the one
/// made with the private key over exactly the message that validation will
/// compose for the new position when the registry's key for `next_id` closes
/// the chain.
pub proof fn lemma_append_signs_chain_message(
    p: RfidDataView,
    private_key: Seq<u8>,
    signer_id: u32,
    next_id: u32,
    keys: Map<u32, PublicKey>,
)
    requires
        spec_append(p, private_key, signer_id, next_id, keys) is Ok,
    ensures
        ({
            let q = spec_append(p, private_key, signer_id, next_id, keys)->Ok_0;
            let n = p.entries.len() as int;
            let next_key = registry_key(keys, next_id)->0;
            &&& q.entries.len() == n + 1
            &&& q.chip_data == p.chip_data
            &&& q.crc == p.crc
            &&& q.entries.take(n) == p.entries
            &&& q.entries[n].pub_key == signer_id
            &&& q.entries[n].wf()
            &&& spec_chain_message(q, keys, next_key, n) is Some
            &&& crate::signature::rsa_sha3_signature(
                private_key,
                spec_chain_message(q, keys, next_key, n)->0,
            ) == Some(q.entries[n].signature)
        }),
{
    let q = spec_append(p, private_key, signer_id, next_id, keys)->Ok_0;
    let n = p.entries.len() as int;
    let next_key = registry_key(keys, next_id)->0;
    let data = spec_link_data(p, keys, n)->0;
    assert(q.entries.take(n) =~= p.entries);
    assert(spec_link_data(q, keys, n) == spec_link_data(p, keys, n));
    lemma_concat_pair(data, next_key);
}

/// Appending keeps a valid chain valid.
///
/// Take a tag whose chain is accepted with `final_key` closing it, and
/// append an entry signed by the distributor whose registered key is that
/// `final_key` (so the signer is the successor that the chain named, as the
/// chain rule asks; on an empty tag any registered signer will do). If the
/// new signature verifies under the signer's registered key, which is what
/// a matching key pair gives, then the longer chain is accepted with the
/// registry's key for `next_id` closing it.
pub proof fn lemma_append_keeps_chain_valid(
    p: RfidDataView,
    final_key: Seq<u8>,
    private_key: Seq<u8>,
    signer_id: u32,
    next_id: u32,
    keys: Map<u32, PublicKey>,
)
    requires
        spec_validate_chain(p, keys, final_key) == Ok::<(), usize>(()),
        spec_append(p, private_key, signer_id, next_id, keys) is Ok,
        registry_key(keys, signer_id) is Some,
        p.entries.len() > 0 ==> registry_key(keys, signer_id) == Some(final_key),
        ({
            let q = spec_append(p, private_key, signer_id, next_id, keys)->Ok_0;
            let n = p.entries.len() as int;
            spec_verify_signature(
                q.entries[n].signature,
                spec_chain_message(q, keys, registry_key(keys, next_id)->0, n)->0,
                registry_key(keys, signer_id)->0,
            )
        }),
    ensures
        spec_validate_chain(
            spec_append(p, private_key, signer_id, next_id, keys)->Ok_0,
            keys,
            registry_key(keys, next_id)->0,
        ) == Ok::<(), usize>(()),
{
    let q = spec_append(p, private_key, signer_id, next_id, keys)->Ok_0;
    let n = p.entries.len() as int;
    let next_key = registry_key(keys, next_id)->0;
    lemma_append_signs_chain_message(p, private_key, signer_id, next_id, keys);
    lemma_first_failure(p, keys, final_key, p.entries.len());
    assert forall|j: int| 0 <= j < q.entries.len() implies spec_entry_verifies(
        q,
        keys,
        next_key,
        j,
    ) by {
        if j < n {
            assert(forall|k: int| 0 <= k <= j ==> p.entries[k] == q.entries.take(n)[k]);
            lemma_entry_verdict_is_local(p, q, keys, final_key, next_key, j);
        }
    }
    lemma_first_failure(q, keys, next_key, q.entries.len());
}

impl Default for RfidBuilder {
    fn default() -> (out: Self)
        ensures
            out@ == (RfidDataView {
                crc: 0,
                chip_data: ChipData { chip_id: 0, freq: 0, voltage: 0, temp: 0, time: 0 },
                entries: Seq::empty(),
            }),
    {
        RfidBuilder { rfid_data: RfidData::default() }
    }
}

impl RfidBuilder {
    /// Continues from a tag as it was received.
    pub fn from(rfid_data: RfidData) -> (out: Self)
        ensures
            out@ == rfid_data@,
    {
        RfidBuilder { rfid_data }
    }

    /// Appends the hand-off of distributor `public_key_id` to distributor
    /// `next_public_key_id`, signed with `private_key`.
    ///
    /// On success the tag has one more entry and an unchanged checksum
    /// field; on failure the error says which check did not pass.
    pub fn add_entry(
        self,
        private_key: Vec<u8>,
        public_key_id: u32,
        next_public_key_id: u32,
        keys: &HashMap<u32, PublicKey>,
    ) -> (out: Result<RfidBuilder, AppendError>)
        ensures
            appended_view(out) == spec_append(
                self@,
                private_key@,
                public_key_id,
                next_public_key_id,
                keys@,
            ),
            self@.wf() ==> (out matches Ok(b) ==> b@.wf()),
    {
        let mut rfid_data = self.rfid_data;
        let ghost before = rfid_data@;
        let count: usize = rfid_data.entries.len();
        if count >= MAX_ENTRIES {
            return Err(AppendError::Full);
        }
        if count > 0 {
            let last = &rfid_data.entries[count - 1];
            assert(before.entries[count - 1] == last@);
            if lookup_key(keys, last.pub_key).is_none() {
                return Err(AppendError::UnknownKey(last.pub_key));
            }
        }
        let data = match link_data(&rfid_data, keys, count) {
            Some(data) => data,
            None => {
                return Err(AppendError::Crypto);
            },
        };
        let next_key = match lookup_key(keys, next_public_key_id) {
            Some(key) => slice_to_vec(key.key.as_slice()),
            None => {
                return Err(AppendError::UnknownKey(next_public_key_id));
            },
        };
        let entry = match SupplyChainEntry::new(private_key, next_key, data, public_key_id) {
            Some(entry) => entry,
            None => {
                return Err(AppendError::Crypto);
            },
        };
        proof {
            assert(entry_views(rfid_data.entries@.push(entry)) =~= before.entries.push(entry@));
        }
        rfid_data.entries.push(entry);
        Ok(RfidBuilder { rfid_data })
    }

    /// Sets the telemetry; each reading is the bit pattern of a
    /// single-precision number.
    pub fn chip_data(self, chip_id: u128, freq: u32, voltage: u32, temp: u32, time: u32) -> (out:
        Self)
        ensures
            out@ == (RfidDataView {
                crc: self@.crc,
                chip_data: ChipData { chip_id, freq, voltage, temp, time },
                entries: self@.entries,
            }),
    {
        let mut rfid_data = self.rfid_data;
        rfid_data.chip_data = ChipData { chip_id, freq, voltage, temp, time };
        RfidBuilder { rfid_data }
    }

    /// Finishes the tag: sets the checksum field to what the telemetry and
    /// the entries call for.
    pub fn build(self) -> (out: RfidData)
        ensures
            out@ == (RfidDataView {
                crc: spec_calc_crc(self@),
                chip_data: self@.chip_data,
                entries: self@.entries,
            }),
            out@.crc_valid(),
            self@.wf() ==> out@.wf(),
    {
        let mut rfid_data = self.rfid_data;
        let crc = rfid_data.calc_crc();
        rfid_data.crc = crc;
        rfid_data
    }
}

} // verus!
