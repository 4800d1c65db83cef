//! Public keys of distributors and the registry snapshot that chains are
//! checked against.

use crate::bytes::{le_bytes, le_encode};
use crate::database::DatabaseModel;
use std::collections::HashMap;
use vstd::prelude::*;

verus! {

broadcast use vstd::std_specs::hash::group_hash_axioms;

/// A distributor's public key as the authority hands it out.
#[derive(Debug, Clone)]
pub struct PublicKey {
    /// The distributor's id.
    pub id: u32,
    /// The PEM-encoded RSA public key.
    pub key: Vec<u8>,
    /// A label for people.
    pub distributor_name: String,
}

/// The mathematical value of a `PublicKey`.
pub struct PublicKeyView {
    pub id: u32,
    pub key: Seq<u8>,
    pub distributor_name: Seq<char>,
}

impl View for PublicKey {
    type V = PublicKeyView;

    open spec fn view(&self) -> PublicKeyView {
        PublicKeyView { id: self.id, key: self.key@, distributor_name: self.distributor_name@ }
    }
}

impl PublicKey {
    pub fn new(id: u32, key: Vec<u8>, distributor_name: String) -> (out: Self)
        ensures
            out.id == id,
            out.key == key,
            out.distributor_name == distributor_name,
    {
        Self { id, key, distributor_name }
    }
}

impl DatabaseModel for PublicKey {
    type ID = u32;

    open spec fn spec_id(&self) -> u32 {
        self.id
    }

    open spec fn spec_with_id(&self, id: u32) -> Self {
        PublicKey { id, key: self.key, distributor_name: self.distributor_name }
    }

    /// Four bytes, least significant first.
    open spec fn spec_key_bytes(id: u32) -> Seq<u8> {
        le_bytes(id as nat, 4)
    }

    open spec fn spec_tree() -> Seq<char> {
        "public_keys"@
    }

    fn id(&self) -> (out: u32) {
        self.id
    }

    fn set_id(&mut self, id: u32) {
        self.id = id;
    }

    fn id_type_to_bytes(id: u32) -> (out: Vec<u8>) {
        le_encode(id as u128, 4)
    }

    fn tree() -> (out: String) {
        "public_keys".to_owned()
    }
}

/// The PEM bytes that a registry snapshot holds for `id`, if any.
pub open spec fn registry_key(keys: Map<u32, PublicKey>, id: u32) -> Option<Seq<u8>> {
    if keys.contains_key(id) {
        Some(keys[id].key@)
    } else {
        None
    }
}

/// Looks `id` up in a registry snapshot.
pub fn lookup_key<'a>(keys: &'a HashMap<u32, PublicKey>, id: u32) -> (out: Option<&'a PublicKey>)
    ensures
        match out {
            Some(found) => keys@.contains_key(id) && *found == keys@[id],
            None => !keys@.contains_key(id),
        },
        (out matches Some(found) && registry_key(keys@, id) == Some(found.key@)) || (out.is_none()
            && registry_key(keys@, id).is_none()),
{
    keys.get(&id)
}

} // verus!
