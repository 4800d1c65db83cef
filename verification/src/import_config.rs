//! The list of public keys that seeds the authority's registry.

use crate::key::PublicKey;
use crate::signature::{is_rsa_public_key, spec_is_rsa_public_key};
use vstd::prelude::*;

verus! {

/// Keys to import, in the order in which the operator listed them.
#[derive(Debug, Clone)]
pub struct ImportConfig {
    pub import: Vec<PublicKey>,
}

impl ImportConfig {
    /// An import list with these rows.
    pub fn new(import: Vec<PublicKey>) -> (out: Self)
        ensures
            out.import == import,
    {
        ImportConfig { import }
    }

    /// For each row, whether it may enter the registry: a row is accepted
    /// exactly when its key is no longer than OpenSSL takes and can be read
    /// as an RSA public key.
    pub fn accepted(&self) -> (out: Vec<bool>)
        ensures
            out@.len() == self.import@.len(),
            forall|i: int|
                0 <= i < out@.len() ==> out@[i] == spec_is_rsa_public_key(
                    (#[trigger] self.import@[i]).key@,
                ),
    {
        let mut out: Vec<bool> = Vec::new();
        let mut i: usize = 0;
        while i < self.import.len()
            invariant
                i <= self.import@.len(),
                out@.len() == i,
                forall|j: int|
                    0 <= j < i ==> out@[j] == spec_is_rsa_public_key(
                        (#[trigger] self.import@[j]).key@,
                    ),
            decreases self.import@.len() - i,
        {
            out.push(is_rsa_public_key(self.import[i].key.as_slice()));
            i = i + 1;
        }
        out
    }
}

} // verus!
