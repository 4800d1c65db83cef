//! The authority's mirror ledger: one per chip, one entry per reported
//! hand-off, each signed by the authority.
//!
//! Entry `k` signs
//!
//! ```text
//! k == 0:  canonical form of the reported tag ++ next distributor's key
//! k >  0:  canonical form of the ledger as it stood before entry k
//!          ++ canonical form of the reported tag ++ next distributor's key
//! ```
//!
//! Appending freezes the ledger's canonical form before it adds the entry;
//! validation writes the same form again from the entries before `k`, so the
//! two agree byte for byte.

use crate::bytes::{append_bytes, le_bytes, le_encode};
use crate::canon::{
    base64_text, lemma_joined_push, lit, push_canon_rfid, push_decimal, push_lit,
    readings_known, spec_canon_rfid, spec_decimal, spec_joined,
};
use crate::database::DatabaseModel;
use crate::error::LedgerError;
use crate::key::{lookup_key, registry_key, PublicKey};
use crate::rfid::{RfidData, RfidDataView};
use crate::signature::{
    concat_all, create_signature, rsa_sha3_signature, spec_sign, spec_verify_signature,
    verify_signature, views_of, BlockChainEntry,
};
use std::collections::HashMap;
use vstd::prelude::*;
use vstd::slice::slice_to_vec;

verus! {

/// The authority's record of one reported hand-off.
#[derive(Debug, Clone)]
pub struct CentralEntry {
    /// The distributor that signed the reported tag last.
    pub dist_id: u32,
    /// The distributor that the hand-off names as the next holder.
    pub next_dist_id: u32,
    /// The tag as it was reported.
    pub rfid_data: RfidData,
    /// The authority's signature.
    pub signature: Vec<u8>,
}

/// The mathematical value of a `CentralEntry`.
pub struct CentralEntryView {
    pub dist_id: u32,
    pub next_dist_id: u32,
    pub rfid_data: RfidDataView,
    pub signature: Seq<u8>,
}

impl View for CentralEntry {
    type V = CentralEntryView;

    open spec fn view(&self) -> CentralEntryView {
        CentralEntryView {
            dist_id: self.dist_id,
            next_dist_id: self.next_dist_id,
            rfid_data: self.rfid_data@,
            signature: self.signature@,
        }
    }
}

/// The mirror ledger of one chip.
#[derive(Debug, Clone)]
pub struct CentralRecord {
    pub chip_id: u128,
    /// The entries, oldest first. The ledger only ever grows.
    pub entries: Vec<CentralEntry>,
}

/// The mathematical value of a `CentralRecord`.
pub struct CentralRecordView {
    pub chip_id: u128,
    pub entries: Seq<CentralEntryView>,
}

/// The views of a list of ledger entries.
pub open spec fn central_views(entries: Seq<CentralEntry>) -> Seq<CentralEntryView> {
    entries.map_values(|e: CentralEntry| e@)
}

impl View for CentralRecord {
    type V = CentralRecordView;

    open spec fn view(&self) -> CentralRecordView {
        CentralRecordView { chip_id: self.chip_id, entries: central_views(self.entries@) }
    }
}

impl CentralRecordView {
    /// The ledger as it stood before entry `k` was added.
    pub open spec fn before(self, k: int) -> CentralRecordView {
        CentralRecordView { chip_id: self.chip_id, entries: self.entries.take(k) }
    }

    /// Whether the table has a text for every reading in the ledger.
    pub open spec fn readings_known(self, texts: Map<u32, Vec<u8>>) -> bool {
        forall|i: int|
            0 <= i < self.entries.len() ==> readings_known(
                texts,
                (#[trigger] self.entries[i]).rfid_data.chip_data,
            )
    }
}

/// The canonical form of a ledger entry.
pub open spec fn spec_canon_central_entry(e: CentralEntryView, texts: Map<u32, Vec<u8>>) -> Seq<
    u8,
> {
    lit("{\"dist_id\":") + spec_decimal(e.dist_id as nat) + lit(",\"next_dist_id\":")
        + spec_decimal(e.next_dist_id as nat) + lit(",\"rfid_data\":") + spec_canon_rfid(
        e.rfid_data,
        texts,
    ) + lit(",\"signature\":\"") + base64_text(e.signature) + lit("\"}")
}

/// The canonical forms of a list of ledger entries.
pub open spec fn spec_canon_central_entries(
    entries: Seq<CentralEntryView>,
    texts: Map<u32, Vec<u8>>,
) -> Seq<Seq<u8>> {
    entries.map_values(|e: CentralEntryView| spec_canon_central_entry(e, texts))
}

/// The canonical form of a ledger.
pub open spec fn spec_canon_record(r: CentralRecordView, texts: Map<u32, Vec<u8>>) -> Seq<u8> {
    lit("{\"chip_id\":") + spec_decimal(r.chip_id as nat) + lit(",\"entries\":[") + spec_joined(
        spec_canon_central_entries(r.entries, texts),
    ) + lit("]}")
}

/// What entry `k` signs ahead of the reported tag: nothing for the first
/// entry, the canonical form of the ledger before `k` for every other.
pub open spec fn spec_record_data(r: CentralRecordView, texts: Map<u32, Vec<u8>>, k: int) -> Seq<
    u8,
> {
    if k == 0 {
        Seq::empty()
    } else {
        spec_canon_record(r.before(k), texts)
    }
}

/// The byte string that the authority signs for a ledger entry.
pub open spec fn spec_mirror_message(
    record_data: Seq<u8>,
    rfid_data: RfidDataView,
    next_dist_pk: Seq<u8>,
    texts: Map<u32, Vec<u8>>,
) -> Seq<u8> {
    record_data + spec_canon_rfid(rfid_data, texts) + next_dist_pk
}

/// What `CentralEntry::new` returns.
pub open spec fn spec_new_central_entry(
    private_key: Seq<u8>,
    dist_id: u32,
    next_dist_id: u32,
    next_dist_pk: Seq<u8>,
    rfid_data: RfidDataView,
    record_data: Seq<u8>,
    texts: Map<u32, Vec<u8>>,
) -> Result<CentralEntryView, LedgerError> {
    if !readings_known(texts, rfid_data.chip_data) {
        Err(LedgerError::UnknownReading)
    } else {
        match spec_sign(
            private_key,
            spec_mirror_message(record_data, rfid_data, next_dist_pk, texts),
        ) {
            Some(signature) => Ok(CentralEntryView { dist_id, next_dist_id, rfid_data, signature }),
            None => Err(LedgerError::Crypto),
        }
    }
}

/// What `CentralRecord::add_entry` leaves in the ledger, or why it leaves
/// the ledger as it was.
pub open spec fn spec_mirror_append(
    r: CentralRecordView,
    private_key: Seq<u8>,
    dist_id: u32,
    next_dist_id: u32,
    next_dist_pk: Seq<u8>,
    rfid_data: RfidDataView,
    texts: Map<u32, Vec<u8>>,
) -> Result<CentralRecordView, LedgerError> {
    if !r.readings_known(texts) {
        Err(LedgerError::UnknownReading)
    } else {
        match spec_new_central_entry(
            private_key,
            dist_id,
            next_dist_id,
            next_dist_pk,
            rfid_data,
            spec_record_data(r, texts, r.entries.len() as int),
            texts,
        ) {
            Ok(entry) => Ok(
                CentralRecordView { chip_id: r.chip_id, entries: r.entries.push(entry) },
            ),
            Err(e) => Err(e),
        }
    }
}

/// The byte string that the authority must have signed for entry `k`;
/// `None` where the registry has no key for the entry's next distributor.
pub open spec fn spec_ledger_message(
    r: CentralRecordView,
    keys: Map<u32, PublicKey>,
    texts: Map<u32, Vec<u8>>,
    k: int,
) -> Option<Seq<u8>> {
    match registry_key(keys, r.entries[k].next_dist_id) {
        Some(next_key) => Some(
            spec_mirror_message(spec_record_data(r, texts, k), r.entries[k].rfid_data, next_key, texts),
        ),
        None => None,
    }
}

/// Whether ledger entry `k` passes: its readings have texts, its next
/// distributor's key is in the registry, and its signature verifies under
/// the authority's key over the message of position `k`.
pub open spec fn spec_ledger_entry_verifies(
    r: CentralRecordView,
    keys: Map<u32, PublicKey>,
    authority_key: Seq<u8>,
    texts: Map<u32, Vec<u8>>,
    k: int,
) -> bool {
    &&& readings_known(texts, r.entries[k].rfid_data.chip_data)
    &&& match spec_ledger_message(r, keys, texts, k) {
        Some(message) => spec_verify_signature(r.entries[k].signature, message, authority_key),
        None => false,
    }
}

/// The first position below `upto` that does not pass, if there is one.
pub open spec fn spec_ledger_first_failure(
    r: CentralRecordView,
    keys: Map<u32, PublicKey>,
    authority_key: Seq<u8>,
    texts: Map<u32, Vec<u8>>,
    upto: nat,
) -> Option<nat>
    decreases upto,
{
    if upto == 0 {
        None
    } else {
        match spec_ledger_first_failure(r, keys, authority_key, texts, (upto - 1) as nat) {
            Some(k) => Some(k),
            None => if spec_ledger_entry_verifies(r, keys, authority_key, texts, upto - 1) {
                None
            } else {
                Some((upto - 1) as nat)
            },
        }
    }
}

/// The verdict on a ledger: `Ok` when every entry passes, else the first
/// position that does not.
pub open spec fn spec_validate_ledger(
    r: CentralRecordView,
    keys: Map<u32, PublicKey>,
    authority_key: Seq<u8>,
    texts: Map<u32, Vec<u8>>,
) -> Result<(), usize> {
    match spec_ledger_first_failure(r, keys, authority_key, texts, r.entries.len()) {
        Some(k) => Err(k as usize),
        None => Ok(()),
    }
}

/// The view of the outcome of making a ledger entry.
pub open spec fn made_entry_view(r: Result<CentralEntry, LedgerError>) -> Result<
    CentralEntryView,
    LedgerError,
> {
    match r {
        Ok(e) => Ok(e@),
        Err(x) => Err(x),
    }
}

/// `spec_ledger_first_failure` finds nothing exactly when every position
/// below `upto` passes, and what it finds is the least position that fails.
pub proof fn lemma_ledger_first_failure(
    r: CentralRecordView,
    keys: Map<u32, PublicKey>,
    authority_key: Seq<u8>,
    texts: Map<u32, Vec<u8>>,
    upto: nat,
)
    ensures
        match spec_ledger_first_failure(r, keys, authority_key, texts, upto) {
            Some(k) => {
                &&& k < upto
                &&& !spec_ledger_entry_verifies(r, keys, authority_key, texts, k as int)
                &&& forall|j: int|
                    0 <= j < k ==> spec_ledger_entry_verifies(r, keys, authority_key, texts, j)
            },
            None => forall|j: int|
                0 <= j < upto ==> spec_ledger_entry_verifies(r, keys, authority_key, texts, j),
        },
    decreases upto,
{
    if upto > 0 {
        lemma_ledger_first_failure(r, keys, authority_key, texts, (upto - 1) as nat);
    }
}

proof fn lemma_ledger_first_failure_stable(
    r: CentralRecordView,
    keys: Map<u32, PublicKey>,
    authority_key: Seq<u8>,
    texts: Map<u32, Vec<u8>>,
    k: nat,
    upto: nat,
)
    requires
        k < upto,
        spec_ledger_first_failure(r, keys, authority_key, texts, k).is_none(),
        !spec_ledger_entry_verifies(r, keys, authority_key, texts, k as int),
    ensures
        spec_ledger_first_failure(r, keys, authority_key, texts, upto) == Some(k),
    decreases upto,
{
    if upto > k + 1 {
        lemma_ledger_first_failure_stable(r, keys, authority_key, texts, k, (upto - 1) as nat);
    }
}

/// Whether a ledger entry passes depends on the ledger up to that entry
/// only: two ledgers of one chip that agree up to entry `k` agree on `k`.
pub proof fn lemma_ledger_verdict_is_local(
    r: CentralRecordView,
    s: CentralRecordView,
    keys: Map<u32, PublicKey>,
    authority_key: Seq<u8>,
    texts: Map<u32, Vec<u8>>,
    k: int,
)
    requires
        0 <= k < r.entries.len(),
        k < s.entries.len(),
        r.chip_id == s.chip_id,
        r.entries.take(k + 1) == s.entries.take(k + 1),
    ensures
        spec_ledger_entry_verifies(r, keys, authority_key, texts, k) == spec_ledger_entry_verifies(
            s,
            keys,
            authority_key,
            texts,
            k,
        ),
{
    assert(r.entries[k] == r.entries.take(k + 1)[k]);
    assert(s.entries[k] == s.entries.take(k + 1)[k]);
    assert(r.entries.take(k) =~= r.entries.take(k + 1).take(k));
    assert(s.entries.take(k) =~= s.entries.take(k + 1).take(k));
}

/// Appending keeps a valid ledger valid.
///
/// Take a ledger that is accepted, and append an entry for a next
/// distributor whose key, as handed to the append, is the key that the
/// registry holds for it. If the new signature verifies under the
/// authority's public key, which is what a matching key pair gives, then the
/// longer ledger is accepted: validation composes for the new position the
/// very bytes that the append signed.
pub proof fn lemma_mirror_append_keeps_ledger_valid(
    r: CentralRecordView,
    keys: Map<u32, PublicKey>,
    authority_key: Seq<u8>,
    texts: Map<u32, Vec<u8>>,
    private_key: Seq<u8>,
    dist_id: u32,
    next_dist_id: u32,
    next_dist_pk: Seq<u8>,
    rfid_data: RfidDataView,
)
    requires
        spec_validate_ledger(r, keys, authority_key, texts) == Ok::<(), usize>(()),
        spec_mirror_append(r, private_key, dist_id, next_dist_id, next_dist_pk, rfid_data, texts)
            is Ok,
        registry_key(keys, next_dist_id) == Some(next_dist_pk),
        ({
            let s = spec_mirror_append(
                r,
                private_key,
                dist_id,
                next_dist_id,
                next_dist_pk,
                rfid_data,
                texts,
            )->Ok_0;
            let n = r.entries.len() as int;
            spec_verify_signature(
                s.entries[n].signature,
                spec_mirror_message(spec_record_data(r, texts, n), rfid_data, next_dist_pk, texts),
                authority_key,
            )
        }),
    ensures
        spec_validate_ledger(
            spec_mirror_append(
                r,
                private_key,
                dist_id,
                next_dist_id,
                next_dist_pk,
                rfid_data,
                texts,
            )->Ok_0,
            keys,
            authority_key,
            texts,
        ) == Ok::<(), usize>(()),
{
    let s = spec_mirror_append(
        r,
        private_key,
        dist_id,
        next_dist_id,
        next_dist_pk,
        rfid_data,
        texts,
    )->Ok_0;
    let n = r.entries.len() as int;
    lemma_mirror_append_shape(r, private_key, dist_id, next_dist_id, next_dist_pk, rfid_data, texts);
    assert(spec_ledger_entry_verifies(s, keys, authority_key, texts, n)) by {
        assert(r.entries.take(n) =~= r.entries);
        assert(s.before(n) == r.before(n));
        assert(spec_record_data(s, texts, n) == spec_record_data(r, texts, n));
        assert(spec_ledger_message(s, keys, texts, n) == Some(
            spec_mirror_message(spec_record_data(r, texts, n), rfid_data, next_dist_pk, texts),
        ));
    }
    lemma_extended_ledger_valid(r, s, keys, authority_key, texts);
}

/// A ledger that extends an accepted ledger by one entry that passes is
/// accepted.
pub proof fn lemma_extended_ledger_valid(
    r: CentralRecordView,
    s: CentralRecordView,
    keys: Map<u32, PublicKey>,
    authority_key: Seq<u8>,
    texts: Map<u32, Vec<u8>>,
)
    requires
        spec_validate_ledger(r, keys, authority_key, texts) == Ok::<(), usize>(()),
        s.chip_id == r.chip_id,
        s.entries.len() == r.entries.len() + 1,
        s.entries.take(r.entries.len() as int) == r.entries,
        spec_ledger_entry_verifies(s, keys, authority_key, texts, r.entries.len() as int),
    ensures
        spec_validate_ledger(s, keys, authority_key, texts) == Ok::<(), usize>(()),
{
    let n = r.entries.len() as int;
    lemma_ledger_first_failure(r, keys, authority_key, texts, r.entries.len());
    assert forall|j: int| 0 <= j < s.entries.len() implies spec_ledger_entry_verifies(
        s,
        keys,
        authority_key,
        texts,
        j,
    ) by {
        if j < n {
            assert(r.entries.take(j + 1) =~= s.entries.take(n).take(j + 1));
            assert(s.entries.take(j + 1) =~= s.entries.take(n).take(j + 1));
            lemma_ledger_verdict_is_local(r, s, keys, authority_key, texts, j);
        }
    }
    lemma_ledger_first_failure(s, keys, authority_key, texts, s.entries.len());
}

/// An append adds one entry at the end and keeps what the ledger held: the
/// new entry carries the reported tag and the two ids, and its signature is
/// the one made with the private key over the frozen ledger, the tag's
/// canonical form and the next distributor's key.
pub proof fn lemma_mirror_append_shape(
    r: CentralRecordView,
    private_key: Seq<u8>,
    dist_id: u32,
    next_dist_id: u32,
    next_dist_pk: Seq<u8>,
    rfid_data: RfidDataView,
    texts: Map<u32, Vec<u8>>,
)
    requires
        spec_mirror_append(r, private_key, dist_id, next_dist_id, next_dist_pk, rfid_data, texts)
            is Ok,
    ensures
        ({
            let s = spec_mirror_append(
                r,
                private_key,
                dist_id,
                next_dist_id,
                next_dist_pk,
                rfid_data,
                texts,
            )->Ok_0;
            let n = r.entries.len() as int;
            &&& s.chip_id == r.chip_id
            &&& s.entries.len() == n + 1
            &&& s.entries.take(n) == r.entries
            &&& s.entries[n].dist_id == dist_id
            &&& s.entries[n].next_dist_id == next_dist_id
            &&& s.entries[n].rfid_data == rfid_data
            &&& s.entries[n].signature.len() == crate::signature::SIGNATURE_SIZE
            &&& readings_known(texts, rfid_data.chip_data)
            &&& r.readings_known(texts)
            &&& rsa_sha3_signature(
                private_key,
                spec_mirror_message(spec_record_data(r, texts, n), rfid_data, next_dist_pk, texts),
            ) == Some(s.entries[n].signature)
        }),
{
    let s = spec_mirror_append(
        r,
        private_key,
        dist_id,
        next_dist_id,
        next_dist_pk,
        rfid_data,
        texts,
    )->Ok_0;
    let n = r.entries.len() as int;
    assert(s.entries.take(n) =~= r.entries);
}

/// The message of one part is that part.
pub proof fn lemma_concat_single(a: Seq<u8>)
    ensures
        concat_all(seq![a]) == a,
{
    assert(seq![a].drop_last() =~= Seq::<Seq<u8>>::empty());
    reveal_with_fuel(concat_all, 2);
    assert(concat_all(seq![a]) =~= a);
}

/// Appends the canonical form of a ledger entry; reports whether every
/// reading of its tag had a text. Where one had none, what was appended is
/// of no use.
pub fn push_canon_central_entry(
    buffer: &mut Vec<u8>,
    e: &CentralEntry,
    texts: &HashMap<u32, Vec<u8>>,
) -> (known: bool)
    ensures
        known == readings_known(texts@, e.rfid_data.chip_data),
        known ==> final(buffer)@ == old(buffer)@ + spec_canon_central_entry(e@, texts@),
{
    let ghost before = buffer@;
    push_lit(buffer, "{\"dist_id\":");
    push_decimal(buffer, e.dist_id as u128);
    push_lit(buffer, ",\"next_dist_id\":");
    push_decimal(buffer, e.next_dist_id as u128);
    push_lit(buffer, ",\"rfid_data\":");
    if !push_canon_rfid(buffer, &e.rfid_data, texts) {
        return false;
    }
    push_lit(buffer, ",\"signature\":\"");
    crate::canon::push_base64(buffer, e.signature.as_slice());
    push_lit(buffer, "\"}");
    assert(buffer@ =~= before + spec_canon_central_entry(e@, texts@));
    true
}

impl BlockChainEntry for CentralEntry {
    open spec fn spec_signature(&self) -> Seq<u8> {
        self.signature@
    }

    fn signature(&self) -> (out: Vec<u8>) {
        slice_to_vec(self.signature.as_slice())
    }
}

impl CentralEntry {
    /// Makes the authority's entry for a reported tag: signs `record_data`,
    /// then the tag's canonical form, then the next distributor's key.
    ///
    /// `record_data` is what the ledger contributes: nothing for a ledger's
    /// first entry, else the ledger's canonical form before this entry.
    pub fn new(
        private_key: Vec<u8>,
        dist_id: u32,
        next_dist_id: u32,
        next_dist_pk: Vec<u8>,
        rfid_data: RfidData,
        record_data: Vec<u8>,
        texts: &HashMap<u32, Vec<u8>>,
    ) -> (out: Result<CentralEntry, LedgerError>)
        ensures
            made_entry_view(out) == spec_new_central_entry(
                private_key@,
                dist_id,
                next_dist_id,
                next_dist_pk@,
                rfid_data@,
                record_data@,
                texts@,
            ),
    {
        let mut message = record_data;
        if !push_canon_rfid(&mut message, &rfid_data, texts) {
            return Err(LedgerError::UnknownReading);
        }
        append_bytes(&mut message, next_dist_pk.as_slice());
        let ghost signed = message@;
        let mut members: Vec<Vec<u8>> = Vec::new();
        members.push(message);
        proof {
            assert(views_of(members@) =~= seq![signed]);
            lemma_concat_single(signed);
        }
        match create_signature(private_key.as_slice(), &members) {
            Some(signature) => Ok(CentralEntry { dist_id, next_dist_id, rfid_data, signature }),
            None => Err(LedgerError::Crypto),
        }
    }
}

impl Default for CentralRecord {
    fn default() -> (out: Self)
        ensures
            out@ == (CentralRecordView { chip_id: 0, entries: Seq::empty() }),
    {
        let out = CentralRecord { chip_id: 0, entries: Vec::new() };
        assert(out@.entries =~= Seq::empty());
        out
    }
}

impl DatabaseModel for CentralRecord {
    type ID = u128;

    open spec fn spec_id(&self) -> u128 {
        self.chip_id
    }

    open spec fn spec_with_id(&self, id: u128) -> Self {
        CentralRecord { chip_id: id, entries: self.entries }
    }

    /// Sixteen bytes, least significant first.
    open spec fn spec_key_bytes(id: u128) -> Seq<u8> {
        le_bytes(id as nat, 16)
    }

    open spec fn spec_tree() -> Seq<char> {
        "central_record"@
    }

    fn id(&self) -> (out: u128) {
        self.chip_id
    }

    fn set_id(&mut self, id: u128) {
        self.chip_id = id
    }

    fn id_type_to_bytes(id: u128) -> (out: Vec<u8>) {
        le_encode(id, 16)
    }

    fn tree() -> (out: String) {
        "central_record".to_owned()
    }
}

impl CentralRecord {
    /// An empty ledger for a chip.
    pub fn new(chip_id: u128) -> (out: Self)
        ensures
            out@ == (CentralRecordView { chip_id, entries: Seq::empty() }),
    {
        let out = CentralRecord { chip_id, entries: Vec::new() };
        assert(out@.entries =~= Seq::empty());
        out
    }

    /// The ledger's canonical form, or `None` where the table lacks the text
    /// of one of its readings.
    pub fn canon(&self, texts: &HashMap<u32, Vec<u8>>) -> (out: Option<Vec<u8>>)
        ensures
            out is Some == self@.readings_known(texts@),
            out matches Some(bytes) ==> bytes@ == spec_canon_record(self@, texts@),
    {
        let mut out: Vec<u8> = Vec::new();
        push_lit(&mut out, "{\"chip_id\":");
        push_decimal(&mut out, self.chip_id);
        push_lit(&mut out, ",\"entries\":[");
        let ghost head = out@;
        let ghost views = self@.entries;
        let ghost items = spec_canon_central_entries(views, texts@);
        let count: usize = self.entries.len();
        let mut i: usize = 0;
        while i < count
            invariant
                i <= count == self.entries@.len(),
                views == self@.entries,
                items == spec_canon_central_entries(views, texts@),
                out@ == head + spec_joined(items.take(i as int)),
                forall|j: int|
                    0 <= j < i ==> readings_known(
                        texts@,
                        (#[trigger] views[j]).rfid_data.chip_data,
                    ),
            decreases count - i,
        {
            proof {
                assert(items.take(i + 1) =~= items.take(i as int).push(items[i as int]));
                lemma_joined_push(items.take(i as int), items[i as int]);
                assert(views[i as int] == self.entries@[i as int]@);
            }
            if i > 0 {
                push_lit(&mut out, ",");
            }
            if !push_canon_central_entry(&mut out, &self.entries[i], texts) {
                return None;
            }
            assert(out@ =~= head + spec_joined(items.take(i + 1)));
            i = i + 1;
        }
        assert(items.take(count as int) =~= items);
        push_lit(&mut out, "]}");
        assert(out@ =~= spec_canon_record(self@, texts@));
        Some(out)
    }

    /// Records a reported hand-off: freezes the ledger's canonical form,
    /// signs it with the reported tag and the next distributor's key, and
    /// adds the entry. The first entry of a ledger signs the tag and the key
    /// alone.
    ///
    /// On an error the ledger is left as it was.
    pub fn add_entry(
        &mut self,
        private_key: Vec<u8>,
        dist_id: u32,
        next_dist_id: u32,
        next_dist_pk: Vec<u8>,
        rfid_data: RfidData,
        texts: &HashMap<u32, Vec<u8>>,
    ) -> (out: Result<(), LedgerError>)
        ensures
            match spec_mirror_append(
                old(self)@,
                private_key@,
                dist_id,
                next_dist_id,
                next_dist_pk@,
                rfid_data@,
                texts@,
            ) {
                Ok(after) => out is Ok && final(self)@ == after,
                Err(e) => out == Err::<(), LedgerError>(e) && *final(self) == *old(self),
            },
    {
        let ghost before = self@;
        let record_data: Vec<u8> = match self.canon(texts) {
            Some(bytes) => if self.entries.is_empty() {
                Vec::new()
            } else {
                bytes
            },
            None => {
                return Err(LedgerError::UnknownReading);
            },
        };
        proof {
            assert(before.entries.take(before.entries.len() as int) =~= before.entries);
            assert(before.before(before.entries.len() as int) == before);
        }
        let entry = match CentralEntry::new(
            private_key,
            dist_id,
            next_dist_id,
            next_dist_pk,
            rfid_data,
            record_data,
            texts,
        ) {
            Ok(entry) => entry,
            Err(e) => {
                return Err(e);
            },
        };
        proof {
            assert(central_views(self.entries@.push(entry)) =~= before.entries.push(entry@));
        }
        self.entries.push(entry);
        Ok(())
    }

    /// Checks the ledger against a registry snapshot and the authority's
    /// public key.
    ///
    /// Entries are checked in order from the first. The result is `Ok` when
    /// every entry passes, and else `Err` with the position of the first
    /// entry that does not, be it for a reading without a text, a next
    /// distributor missing from the snapshot, or a signature that does not
    /// verify.
    pub fn validate_chain(
        &self,
        keys: &HashMap<u32, PublicKey>,
        public_key: PublicKey,
        texts: &HashMap<u32, Vec<u8>>,
    ) -> (out: Result<(), usize>)
        ensures
            out == spec_validate_ledger(self@, keys@, public_key.key@, texts@),
            match out {
                Ok(_) => forall|j: int|
                    0 <= j < self@.entries.len() ==> spec_ledger_entry_verifies(
                        self@,
                        keys@,
                        public_key.key@,
                        texts@,
                        j,
                    ),
                Err(k) => {
                    &&& k < self@.entries.len()
                    &&& !spec_ledger_entry_verifies(self@, keys@, public_key.key@, texts@, k as int)
                    &&& forall|j: int|
                        0 <= j < k ==> spec_ledger_entry_verifies(
                            self@,
                            keys@,
                            public_key.key@,
                            texts@,
                            j,
                        )
                },
            },
    {
        let mut head: Vec<u8> = Vec::new();
        push_lit(&mut head, "{\"chip_id\":");
        push_decimal(&mut head, self.chip_id);
        push_lit(&mut head, ",\"entries\":[");
        let mut joined: Vec<u8> = Vec::new();
        let ghost views = self@.entries;
        let ghost items = spec_canon_central_entries(views, texts@);
        let count: usize = self.entries.len();
        let mut k: usize = 0;
        while k < count
            invariant
                k <= count == self.entries@.len(),
                views == self@.entries,
                items == spec_canon_central_entries(views, texts@),
                head@ == lit("{\"chip_id\":") + spec_decimal(self.chip_id as nat) + lit(
                    ",\"entries\":[",
                ),
                joined@ == spec_joined(items.take(k as int)),
                spec_ledger_first_failure(self@, keys@, public_key.key@, texts@, k as nat).is_none(),
            decreases count - k,
        {
            let entry = &self.entries[k];
            proof {
                assert(views[k as int] == entry@);
                assert(items.take(k as int) =~= spec_canon_central_entries(
                    views.take(k as int),
                    texts@,
                ));
                assert(items.take(k + 1) =~= items.take(k as int).push(items[k as int]));
                lemma_joined_push(items.take(k as int), items[k as int]);
            }
            let mut message: Vec<u8> = Vec::new();
            if k > 0 {
                append_bytes(&mut message, head.as_slice());
                append_bytes(&mut message, joined.as_slice());
                push_lit(&mut message, "]}");
            }
            assert(message@ =~= spec_record_data(self@, texts@, k as int));
            let known = push_canon_rfid(&mut message, &entry.rfid_data, texts);
            let passes = if known {
                match lookup_key(keys, entry.next_dist_id) {
                    Some(next_key) => {
                        append_bytes(&mut message, next_key.key.as_slice());
                        verify_signature(
                            entry.signature.as_slice(),
                            message.as_slice(),
                            public_key.key.as_slice(),
                        )
                    },
                    None => false,
                }
            } else {
                false
            };
            if !passes {
                proof {
                    lemma_ledger_first_failure_stable(
                        self@,
                        keys@,
                        public_key.key@,
                        texts@,
                        k as nat,
                        count as nat,
                    );
                    lemma_ledger_first_failure(
                        self@,
                        keys@,
                        public_key.key@,
                        texts@,
                        count as nat,
                    );
                }
                return Err(k);
            }
            if k > 0 {
                push_lit(&mut joined, ",");
            }
            let written = push_canon_central_entry(&mut joined, entry, texts);
            assert(written);
            assert(joined@ =~= spec_joined(items.take(k + 1)));
            k = k + 1;
        }
        proof {
            lemma_ledger_first_failure(self@, keys@, public_key.key@, texts@, count as nat);
        }
        Ok(())
    }
}

} // verus!
