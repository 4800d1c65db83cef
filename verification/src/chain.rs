//! The signature chain on a tag: what each entry signs, and the check of a
//! whole chain against a registry snapshot.
//!
//! Entry `i` is signed by the distributor that `entries[i].pub_key` names,
//! over
//!
//! ```text
//! i == 0:  telemetry block            ++ successor's key
//! i >  0:  digest committed to by entries[i-1].signature
//!          ++ entries[i-1].signature  ++ successor's key
//! ```
//!
//! The successor of the last entry is given from outside; the successor of
//! every other entry is the signer of the entry after it.

use crate::bytes::append_bytes;
use crate::chip_data::{lemma_parse_chip_bytes, spec_chip_bytes};
use crate::supply_chain::SupplyChainEntryView;
use crate::key::{lookup_key, registry_key, PublicKey};
use crate::rfid::{RfidData, RfidDataView};
use crate::signature::{
    hash_from_signature, option_bytes, spec_hash_from_signature, spec_verify_signature,
    verify_signature,
};
use std::collections::HashMap;
use vstd::prelude::*;

verus! {

/// What entry `i` signs before the successor's key: the telemetry block for
/// the first entry, and for every other the digest recovered from the
/// previous signature under the previous signer's key, followed by that
/// signature. `None` where the previous signer is unknown or the previous
/// signature does not open under its key.
///
/// Only `entries[i - 1]` is read, so `i` may be the number of entries: that
/// is what the next entry to be appended will sign.
pub open spec fn spec_link_data(p: RfidDataView, keys: Map<u32, PublicKey>, i: int) -> Option<
    Seq<u8>,
> {
    if i == 0 {
        Some(spec_chip_bytes(p.chip_data))
    } else {
        let previous = p.entries[i - 1];
        match registry_key(keys, previous.pub_key) {
            Some(previous_key) => match spec_hash_from_signature(
                previous_key,
                previous.signature,
            ) {
                Some(digest) => Some(digest + previous.signature),
                None => None,
            },
            None => None,
        }
    }
}

/// The key of the successor that entry `i` names: `final_key` for the last
/// entry, else the registry's key for the signer of entry `i + 1`.
pub open spec fn spec_successor_key(
    p: RfidDataView,
    keys: Map<u32, PublicKey>,
    final_key: Seq<u8>,
    i: int,
) -> Option<Seq<u8>> {
    if i == p.entries.len() - 1 {
        Some(final_key)
    } else {
        registry_key(keys, p.entries[i + 1].pub_key)
    }
}

/// The byte string that the signer of entry `i` must have signed.
pub open spec fn spec_chain_message(
    p: RfidDataView,
    keys: Map<u32, PublicKey>,
    final_key: Seq<u8>,
    i: int,
) -> Option<Seq<u8>> {
    match (spec_link_data(p, keys, i), spec_successor_key(p, keys, final_key, i)) {
        (Some(data), Some(successor)) => Some(data + successor),
        _ => None,
    }
}

/// Whether entry `i` passes: every key that its check needs is in the
/// registry, the previous signature opens, and the entry's signature
/// verifies under its signer's key over the message of position `i`.
pub open spec fn spec_entry_verifies(
    p: RfidDataView,
    keys: Map<u32, PublicKey>,
    final_key: Seq<u8>,
    i: int,
) -> bool {
    match (registry_key(keys, p.entries[i].pub_key), spec_chain_message(p, keys, final_key, i)) {
        (Some(signer_key), Some(message)) => spec_verify_signature(
            p.entries[i].signature,
            message,
            signer_key,
        ),
        _ => false,
    }
}

/// The first position below `upto` that does not pass, if there is one.
pub open spec fn spec_first_failure(
    p: RfidDataView,
    keys: Map<u32, PublicKey>,
    final_key: Seq<u8>,
    upto: nat,
) -> Option<nat>
    decreases upto,
{
    if upto == 0 {
        None
    } else {
        match spec_first_failure(p, keys, final_key, (upto - 1) as nat) {
            Some(k) => Some(k),
            None => if spec_entry_verifies(p, keys, final_key, upto - 1) {
                None
            } else {
                Some((upto - 1) as nat)
            },
        }
    }
}

/// The verdict on a chain: `Ok` when every entry passes, else the first
/// position that does not.
pub open spec fn spec_validate_chain(
    p: RfidDataView,
    keys: Map<u32, PublicKey>,
    final_key: Seq<u8>,
) -> Result<(), usize> {
    match spec_first_failure(p, keys, final_key, p.entries.len()) {
        Some(k) => Err(k as usize),
        None => Ok(()),
    }
}

/// `spec_first_failure` finds nothing exactly when every position below
/// `upto` passes, and what it finds is the least position that fails.
pub proof fn lemma_first_failure(
    p: RfidDataView,
    keys: Map<u32, PublicKey>,
    final_key: Seq<u8>,
    upto: nat,
)
    ensures
        match spec_first_failure(p, keys, final_key, upto) {
            Some(k) => {
                &&& k < upto
                &&& !spec_entry_verifies(p, keys, final_key, k as int)
                &&& forall|j: int| 0 <= j < k ==> spec_entry_verifies(p, keys, final_key, j)
            },
            None => forall|j: int| 0 <= j < upto ==> spec_entry_verifies(p, keys, final_key, j),
        },
    decreases upto,
{
    if upto > 0 {
        lemma_first_failure(p, keys, final_key, (upto - 1) as nat);
    }
}

/// A chain in which every entry passes is accepted.
pub proof fn lemma_valid_chain_accepted(
    p: RfidDataView,
    keys: Map<u32, PublicKey>,
    final_key: Seq<u8>,
)
    requires
        forall|i: int| 0 <= i < p.entries.len() ==> spec_entry_verifies(p, keys, final_key, i),
    ensures
        spec_validate_chain(p, keys, final_key) == Ok::<(), usize>(()),
{
    lemma_first_failure(p, keys, final_key, p.entries.len());
}

/// A chain is rejected at `k` exactly when `k` is the first entry that fails.
pub proof fn lemma_rejected_at_first_failure(
    p: RfidDataView,
    keys: Map<u32, PublicKey>,
    final_key: Seq<u8>,
    k: int,
)
    requires
        0 <= k < p.entries.len() <= usize::MAX,
        !spec_entry_verifies(p, keys, final_key, k),
        forall|j: int| 0 <= j < k ==> spec_entry_verifies(p, keys, final_key, j),
    ensures
        spec_validate_chain(p, keys, final_key) == Err::<(), usize>(k as usize),
{
    lemma_first_failure(p, keys, final_key, p.entries.len());
}

/// Whether an entry passes depends on the telemetry, on the entries up to
/// the one after it, and on the final key only if it is the last: two tags
/// that agree on these agree on the entry.
pub proof fn lemma_entry_verdict_is_local(
    p: RfidDataView,
    q: RfidDataView,
    keys: Map<u32, PublicKey>,
    p_final: Seq<u8>,
    q_final: Seq<u8>,
    i: int,
)
    requires
        0 <= i < p.entries.len(),
        i < q.entries.len(),
        p.chip_data == q.chip_data,
        forall|j: int| 0 <= j <= i ==> p.entries[j] == q.entries[j],
        spec_successor_key(p, keys, p_final, i) == spec_successor_key(q, keys, q_final, i),
    ensures
        spec_entry_verifies(p, keys, p_final, i) == spec_entry_verifies(q, keys, q_final, i),
{
}

/// Changing the final successor's key cannot change the verdict on any entry
/// but the last: a chain that was accepted is then accepted still or
/// rejected at its last position, and nowhere else.
pub proof fn lemma_final_key_touches_last_only(
    p: RfidDataView,
    keys: Map<u32, PublicKey>,
    final_key: Seq<u8>,
    other_key: Seq<u8>,
)
    requires
        0 < p.entries.len() <= usize::MAX,
        spec_validate_chain(p, keys, final_key) == Ok::<(), usize>(()),
    ensures
        spec_validate_chain(p, keys, other_key) == Ok::<(), usize>(()) || spec_validate_chain(
            p,
            keys,
            other_key,
        ) == Err::<(), usize>((p.entries.len() - 1) as usize),
{
    let n = p.entries.len();
    lemma_first_failure(p, keys, final_key, n);
    lemma_first_failure(p, keys, other_key, n);
    assert forall|j: int| 0 <= j < n - 1 implies spec_entry_verifies(p, keys, other_key, j) by {
        lemma_entry_verdict_is_local(p, p, keys, final_key, other_key, j);
    }
}

/// A change to entry `i` (its signature, or the signer of the entry after
/// it) leaves the verdict on every entry before `i - 1` as it was, and a
/// change to the signature alone leaves the verdict on every entry before
/// `i` as it was: no rejection can move to an earlier position than the
/// change can reach.
pub proof fn lemma_change_leaves_earlier_entries(
    p: RfidDataView,
    q: RfidDataView,
    keys: Map<u32, PublicKey>,
    final_key: Seq<u8>,
    i: int,
    j: int,
)
    requires
        0 <= i < p.entries.len() == q.entries.len(),
        p.chip_data == q.chip_data,
        forall|k: int| 0 <= k < i ==> p.entries[k] == q.entries[k],
        p.entries[i].pub_key == q.entries[i].pub_key,
        0 <= j < i,
    ensures
        spec_entry_verifies(p, keys, final_key, j) == spec_entry_verifies(q, keys, final_key, j),
{
    lemma_entry_verdict_is_local(p, q, keys, final_key, final_key, j);
}

/// A change at entry `i` is caught at `i` or later, never before.
///
/// Take an accepted chain and change entry `i` without changing its signer,
/// and anything after it: the changed chain is accepted or rejected at a
/// position from `i` on. Whether it is rejected rests on the signatures.
pub proof fn lemma_change_is_caught_no_earlier(
    p: RfidDataView,
    q: RfidDataView,
    keys: Map<u32, PublicKey>,
    final_key: Seq<u8>,
    i: int,
)
    requires
        0 <= i < p.entries.len() == q.entries.len() <= usize::MAX,
        p.chip_data == q.chip_data,
        forall|k: int| 0 <= k < i ==> p.entries[k] == q.entries[k],
        p.entries[i].pub_key == q.entries[i].pub_key,
        spec_validate_chain(p, keys, final_key) == Ok::<(), usize>(()),
    ensures
        match spec_validate_chain(q, keys, final_key) {
            Ok(_) => true,
            Err(j) => i <= j < q.entries.len(),
        },
{
    lemma_first_failure(p, keys, final_key, p.entries.len());
    lemma_first_failure(q, keys, final_key, q.entries.len());
    assert forall|j: int| 0 <= j < i implies spec_entry_verifies(q, keys, final_key, j) by {
        lemma_change_leaves_earlier_entries(p, q, keys, final_key, i, j);
    }
}

/// A chain is rejected exactly at an entry that fails, when everything
/// before that entry is as in an accepted chain.
///
/// Take an accepted chain `p` and a chain `q` with the same telemetry, the
/// same entries before `i` and the same signer at `i`. If entry `i` of `q`
/// does not pass, `q` is rejected at `i`: not before, because the entries
/// before `i` pass as they did, and not after, because checking stops at the
/// first failure.
pub proof fn lemma_rejected_exactly_at(
    p: RfidDataView,
    q: RfidDataView,
    keys: Map<u32, PublicKey>,
    p_final: Seq<u8>,
    q_final: Seq<u8>,
    i: int,
)
    requires
        0 <= i < p.entries.len(),
        i < q.entries.len() <= usize::MAX,
        spec_validate_chain(p, keys, p_final) == Ok::<(), usize>(()),
        p.chip_data == q.chip_data,
        forall|k: int| 0 <= k < i ==> p.entries[k] == q.entries[k],
        p.entries[i].pub_key == q.entries[i].pub_key,
        !spec_entry_verifies(q, keys, q_final, i),
    ensures
        spec_validate_chain(q, keys, q_final) == Err::<(), usize>(i as usize),
{
    lemma_first_failure(p, keys, p_final, p.entries.len());
    assert forall|j: int| 0 <= j < i implies spec_entry_verifies(q, keys, q_final, j) by {
        lemma_entry_verdict_is_local(p, q, keys, p_final, q_final, j);
    }
    lemma_rejected_at_first_failure(q, keys, q_final, i);
}

/// A changed signature is caught at its own entry, given that it does not
/// verify.
///
/// Take an accepted chain and replace the signature of entry `i`. The
/// message of position `i` is what it was. If the new signature does not
/// verify over it under the signer's key, the chain is rejected at `i`.
/// That a signature other than the one made does not verify is a fact about
/// RSA and is taken as given here.
pub proof fn lemma_changed_signature_rejected(
    p: RfidDataView,
    q: RfidDataView,
    keys: Map<u32, PublicKey>,
    final_key: Seq<u8>,
    i: int,
)
    requires
        0 <= i < p.entries.len() <= usize::MAX,
        p.chip_data == q.chip_data,
        q.entries == p.entries.update(
            i,
            SupplyChainEntryView {
                pub_key: p.entries[i].pub_key,
                signature: q.entries[i].signature,
            },
        ),
        spec_validate_chain(p, keys, final_key) == Ok::<(), usize>(()),
        !spec_verify_signature(
            q.entries[i].signature,
            spec_chain_message(p, keys, final_key, i)->0,
            registry_key(keys, p.entries[i].pub_key)->0,
        ),
    ensures
        spec_chain_message(q, keys, final_key, i) == spec_chain_message(p, keys, final_key, i),
        spec_validate_chain(q, keys, final_key) == Err::<(), usize>(i as usize),
{
    lemma_first_failure(p, keys, final_key, p.entries.len());
    assert(spec_entry_verifies(p, keys, final_key, i));
    lemma_rejected_exactly_at(p, q, keys, final_key, final_key, i);
}

/// Changed telemetry changes what the first entry signs.
pub proof fn lemma_telemetry_changes_first_message(
    p: RfidDataView,
    q: RfidDataView,
    keys: Map<u32, PublicKey>,
    final_key: Seq<u8>,
)
    requires
        p.entries == q.entries,
        p.chip_data != q.chip_data,
        spec_chain_message(p, keys, final_key, 0) is Some,
    ensures
        spec_chain_message(q, keys, final_key, 0) is Some,
        spec_chain_message(q, keys, final_key, 0) != spec_chain_message(p, keys, final_key, 0),
{
    let successor = spec_successor_key(p, keys, final_key, 0)->0;
    lemma_parse_chip_bytes(p.chip_data, successor);
    lemma_parse_chip_bytes(q.chip_data, successor);
}

/// Changed telemetry is caught at the first entry, given that the first
/// signature does not verify over the changed message.
///
/// The first entry signs the telemetry block, so with other telemetry it
/// must have signed another message. That a signature made over one message
/// does not verify over another is a fact about RSA and SHA3 and is taken as
/// given here.
pub proof fn lemma_changed_telemetry_rejected(
    p: RfidDataView,
    q: RfidDataView,
    keys: Map<u32, PublicKey>,
    final_key: Seq<u8>,
)
    requires
        0 < p.entries.len() <= usize::MAX,
        p.entries == q.entries,
        p.chip_data != q.chip_data,
        spec_validate_chain(p, keys, final_key) == Ok::<(), usize>(()),
        !spec_verify_signature(
            q.entries[0].signature,
            spec_chain_message(q, keys, final_key, 0)->0,
            registry_key(keys, q.entries[0].pub_key)->0,
        ),
    ensures
        spec_chain_message(q, keys, final_key, 0) != spec_chain_message(p, keys, final_key, 0),
        spec_validate_chain(q, keys, final_key) == Err::<(), usize>(0usize),
{
    lemma_first_failure(p, keys, final_key, p.entries.len());
    assert(spec_entry_verifies(p, keys, final_key, 0));
    lemma_telemetry_changes_first_message(p, q, keys, final_key);
    lemma_rejected_at_first_failure(q, keys, final_key, 0);
}

/// A next signer that the registry does not know is caught at the entry
/// before it.
///
/// Take an accepted chain and give entry `i + 1` a signer id without a key
/// in the registry. Entry `i` names that signer as its successor, so its
/// message cannot be composed: the chain is rejected at `i`, whatever the
/// signatures are.
pub proof fn lemma_unregistered_next_signer_rejected(
    p: RfidDataView,
    q: RfidDataView,
    keys: Map<u32, PublicKey>,
    final_key: Seq<u8>,
    i: int,
)
    requires
        0 <= i,
        i + 1 < p.entries.len() == q.entries.len() <= usize::MAX,
        p.chip_data == q.chip_data,
        forall|k: int| 0 <= k <= i ==> p.entries[k] == q.entries[k],
        !keys.contains_key(q.entries[i + 1].pub_key),
        spec_validate_chain(p, keys, final_key) == Ok::<(), usize>(()),
    ensures
        spec_validate_chain(q, keys, final_key) == Err::<(), usize>(i as usize),
{
    assert(spec_successor_key(q, keys, final_key, i).is_none());
    lemma_rejected_exactly_at(p, q, keys, final_key, final_key, i);
}

/// Another final key changes what the last entry signs.
pub proof fn lemma_final_key_changes_last_message(
    p: RfidDataView,
    keys: Map<u32, PublicKey>,
    final_key: Seq<u8>,
    other_key: Seq<u8>,
)
    requires
        0 < p.entries.len(),
        other_key != final_key,
        spec_chain_message(p, keys, final_key, p.entries.len() - 1) is Some,
    ensures
        spec_chain_message(p, keys, other_key, p.entries.len() - 1) is Some,
        spec_chain_message(p, keys, other_key, p.entries.len() - 1) != spec_chain_message(
            p,
            keys,
            final_key,
            p.entries.len() - 1,
        ),
{
    let data = spec_link_data(p, keys, p.entries.len() - 1)->0;
    let n = data.len() as int;
    assert((data + final_key).subrange(n, n + final_key.len()) =~= final_key);
    assert((data + other_key).subrange(n, n + other_key.len()) =~= other_key);
}

/// Another final key is caught at the last entry, given that the last
/// signature does not verify over the changed message.
///
/// The last entry signs the final successor's key, so with another key it
/// must have signed another message; every entry before it passes as it
/// did. That a signature made over one message does not verify over another
/// is a fact about RSA and SHA3 and is taken as given here.
pub proof fn lemma_other_final_key_rejected(
    p: RfidDataView,
    keys: Map<u32, PublicKey>,
    final_key: Seq<u8>,
    other_key: Seq<u8>,
)
    requires
        0 < p.entries.len() <= usize::MAX,
        other_key != final_key,
        spec_validate_chain(p, keys, final_key) == Ok::<(), usize>(()),
        !spec_verify_signature(
            p.entries[p.entries.len() - 1].signature,
            spec_chain_message(p, keys, other_key, p.entries.len() - 1)->0,
            registry_key(keys, p.entries[p.entries.len() - 1].pub_key)->0,
        ),
    ensures
        spec_chain_message(p, keys, other_key, p.entries.len() - 1) != spec_chain_message(
            p,
            keys,
            final_key,
            p.entries.len() - 1,
        ),
        spec_validate_chain(p, keys, other_key) == Err::<(), usize>(
            (p.entries.len() - 1) as usize,
        ),
{
    let last = p.entries.len() - 1;
    lemma_first_failure(p, keys, final_key, p.entries.len());
    assert(spec_entry_verifies(p, keys, final_key, last));
    lemma_final_key_changes_last_message(p, keys, final_key, other_key);
    lemma_rejected_exactly_at(p, p, keys, final_key, other_key, last);
}

/// Computes what entry `i` signs before the successor's key.
pub fn link_data(payload: &RfidData, keys: &HashMap<u32, PublicKey>, i: usize) -> (out: Option<
    Vec<u8>,
>)
    requires
        i <= payload.entries@.len(),
    ensures
        option_bytes(out) == spec_link_data(payload@, keys@, i as int),
{
    if i == 0 {
        return Some(payload.chip_data.to_bytes());
    }
    let previous = &payload.entries[i - 1];
    assert(payload@.entries[i - 1] == previous@);
    let previous_key = match lookup_key(keys, previous.pub_key) {
        Some(key) => key,
        None => {
            return None;
        },
    };
    match hash_from_signature(previous_key.key.as_slice(), previous.signature.as_slice()) {
        Some(digest) => {
            let mut data = digest;
            append_bytes(&mut data, previous.signature.as_slice());
            Some(data)
        },
        None => None,
    }
}

/// Checks entry `i` of a chain.
pub fn entry_verifies(
    payload: &RfidData,
    keys: &HashMap<u32, PublicKey>,
    final_key: &[u8],
    i: usize,
) -> (out: bool)
    requires
        i < payload.entries@.len(),
    ensures
        out == spec_entry_verifies(payload@, keys@, final_key@, i as int),
{
    let entry = &payload.entries[i];
    assert(payload@.entries[i as int] == entry@);
    let signer = match lookup_key(keys, entry.pub_key) {
        Some(key) => key,
        None => {
            return false;
        },
    };
    let mut message = match link_data(payload, keys, i) {
        Some(data) => data,
        None => {
            return false;
        },
    };
    if i == payload.entries.len() - 1 {
        append_bytes(&mut message, final_key);
    } else {
        let next = &payload.entries[i + 1];
        assert(payload@.entries[i + 1] == next@);
        match lookup_key(keys, next.pub_key) {
            Some(successor) => {
                append_bytes(&mut message, successor.key.as_slice());
            },
            None => {
                return false;
            },
        }
    }
    verify_signature(entry.signature.as_slice(), message.as_slice(), signer.key.as_slice())
}

impl RfidData {
    /// Checks the chain against a registry snapshot, with `public_key` as
    /// the successor that the last entry names.
    ///
    /// Entries are checked in order from the first. The result is `Ok` when
    /// every entry passes, and else `Err` with the position of the first
    /// entry that does not, be it for a key missing from the snapshot, a
    /// signature that does not open, or a signature that does not verify.
    pub fn validate_chain(&self, keys: &HashMap<u32, PublicKey>, public_key: PublicKey) -> (out:
        Result<(), usize>)
        ensures
            out == spec_validate_chain(self@, keys@, public_key.key@),
            match out {
                Ok(_) => forall|j: int|
                    0 <= j < self@.entries.len() ==> spec_entry_verifies(
                        self@,
                        keys@,
                        public_key.key@,
                        j,
                    ),
                Err(k) => {
                    &&& k < self@.entries.len()
                    &&& !spec_entry_verifies(self@, keys@, public_key.key@, k as int)
                    &&& forall|j: int|
                        0 <= j < k ==> spec_entry_verifies(self@, keys@, public_key.key@, j)
                },
            },
    {
        let count: usize = self.entries.len();
        let mut i: usize = 0;
        while i < count
            invariant
                i <= count == self.entries@.len(),
                count == self@.entries.len(),
                spec_first_failure(self@, keys@, public_key.key@, i as nat).is_none(),
            decreases count - i,
        {
            if !entry_verifies(self, keys, public_key.key.as_slice(), i) {
                proof {
                    lemma_first_failure_extends(self@, keys@, public_key.key@, i as nat);
                    lemma_first_failure(self@, keys@, public_key.key@, count as nat);
                }
                return Err(i);
            }
            i = i + 1;
        }
        proof {
            lemma_first_failure(self@, keys@, public_key.key@, count as nat);
        }
        Ok(())
    }
}

/// Once a first failure is found below some bound, it stays the first
/// failure below every larger bound.
pub proof fn lemma_first_failure_extends(
    p: RfidDataView,
    keys: Map<u32, PublicKey>,
    final_key: Seq<u8>,
    k: nat,
)
    requires
        k < p.entries.len(),
        spec_first_failure(p, keys, final_key, k).is_none(),
        !spec_entry_verifies(p, keys, final_key, k as int),
    ensures
        spec_first_failure(p, keys, final_key, p.entries.len()) == Some(k),
{
    lemma_first_failure_stable(p, keys, final_key, k, p.entries.len());
}

proof fn lemma_first_failure_stable(
    p: RfidDataView,
    keys: Map<u32, PublicKey>,
    final_key: Seq<u8>,
    k: nat,
    upto: nat,
)
    requires
        k < upto,
        spec_first_failure(p, keys, final_key, k).is_none(),
        !spec_entry_verifies(p, keys, final_key, k as int),
    ensures
        spec_first_failure(p, keys, final_key, upto) == Some(k),
    decreases upto,
{
    if upto > k + 1 {
        lemma_first_failure_stable(p, keys, final_key, k, (upto - 1) as nat);
    }
}

} // verus!
