use vstd::prelude::*;

verus! {

/// An identity that issues calls and owns ledger entries, held as the raw
/// bytes of its principal.
pub struct Actor {
    pub bytes: Vec<u8>,
}

impl View for Actor {
    type V = Seq<u8>;

    open spec fn view(&self) -> Seq<u8> {
        self.bytes@
    }
}

impl Actor {
    pub fn from_bytes(bytes: Vec<u8>) -> (r: Actor)
        ensures
            r@ == bytes@,
    {
        Actor { bytes }
    }

    /// A copy of this identity.
    pub fn duplicate(&self) -> (r: Actor)
        ensures
            r@ == self@,
    {
        Actor { bytes: self.bytes.clone() }
    }

    /// Whether two identities are the same.
    pub fn same(&self, other: &Actor) -> (r: bool)
        ensures
            r == (self@ == other@),
    {
        let n = self.bytes.len();
        if n != other.bytes.len() {
            return false;
        }
        let mut i: usize = 0;
        while i < n
            invariant
                n == self@.len(),
                n == other@.len(),
                0 <= i <= n,
                forall|j: int| 0 <= j < i ==> self@[j] == other@[j],
            decreases n - i,
        {
            if self.bytes[i] != other.bytes[i] {
                return false;
            }
            i = i + 1;
        }
        assert(self@ =~= other@);
        true
    }
}

} // verus!
