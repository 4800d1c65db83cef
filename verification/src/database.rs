//! What a record needs in order to be stored: an id, the bytes of that id as
//! a storage key, and the name of the partition that holds such records.

use vstd::prelude::*;

verus! {

/// A record that a keyed store can hold.
///
/// Storage keys are the id's bytes, least significant first.
pub trait DatabaseModel: Sized {
    /// The type of the record's id.
    type ID;

    /// The record's id.
    spec fn spec_id(&self) -> Self::ID;

    /// The record with its id replaced and nothing else changed.
    spec fn spec_with_id(&self, id: Self::ID) -> Self;

    /// The storage key of an id.
    spec fn spec_key_bytes(id: Self::ID) -> Seq<u8>;

    /// The name of the partition that holds records of this type.
    spec fn spec_tree() -> Seq<char>;

    fn id(&self) -> (out: Self::ID)
        ensures
            out == self.spec_id(),
    ;

    fn set_id(&mut self, id: Self::ID)
        ensures
            *final(self) == old(self).spec_with_id(id),
            final(self).spec_id() == id,
    ;

    /// The storage key of this record.
    fn id_to_bytes(self) -> (out: Vec<u8>)
        ensures
            out@ == Self::spec_key_bytes(self.spec_id()),
    {
        Self::id_type_to_bytes(self.id())
    }

    fn id_type_to_bytes(id: Self::ID) -> (out: Vec<u8>)
        ensures
            out@ == Self::spec_key_bytes(id),
    ;

    fn tree() -> (out: String)
        ensures
            out@ == Self::spec_tree(),
    ;
}

} // verus!
