use vstd::prelude::*;

verus! {

/// The identity of a principal: an opaque string of bytes.
///
/// Two identities are the same principal exactly when their bytes are equal.
/// Nothing here authenticates an identity: whoever hands one to an operation
/// is taken to have proved it beforehand.
#[derive(Debug)]
pub struct Address {
    id: Vec<u8>,
}

impl View for Address {
    type V = Seq<u8>;

    closed spec fn view(&self) -> Seq<u8> {
        self.id@
    }
}

impl Address {
    /// The identity written as the given bytes.
    pub fn new(id: Vec<u8>) -> (a: Address)
        ensures
            a@ == id@,
    {
        Address { id }
    }

    /// The bytes of this identity.
    pub fn as_bytes(&self) -> (id: &Vec<u8>)
        ensures
            id@ == self@,
    {
        &self.id
    }
}

impl Clone for Address {
    fn clone(&self) -> (a: Address)
        ensures
            a@ == self@,
    {
        let id = self.id.clone();
        assert(id@ =~= self.id@);
        Address { id }
    }
}

impl PartialEq for Address {
    fn eq(&self, other: &Address) -> (same: bool) {
        let same = self.id == other.id;
        assert(same == (self.id@ =~= other.id@));
        same
    }
}

impl Eq for Address {
}

impl vstd::std_specs::cmp::PartialEqSpecImpl for Address {
    open spec fn obeys_eq_spec() -> bool {
        true
    }

    open spec fn eq_spec(&self, other: &Address) -> bool {
        self@ == other@
    }
}

} // verus!
