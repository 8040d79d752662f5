use vstd::prelude::*;

verus! {

/// The identifier of a node in the network: an opaque byte string.
#[derive(Debug, PartialEq, Eq, Hash)]
pub struct NodeId {
    bytes: Vec<u8>,
}

impl View for NodeId {
    type V = Seq<u8>;

    closed spec fn view(&self) -> Seq<u8> {
        self.bytes@
    }
}

impl Clone for NodeId {
    fn clone(&self) -> (r: NodeId)
        ensures
            r@ == self@,
    {
        let bytes = self.bytes.clone();
        assert(bytes@ =~= self.bytes@);
        NodeId { bytes }
    }
}

impl NodeId {
    /// Build a node id from its bytes.
    pub fn from_bytes(bytes: Vec<u8>) -> (id: NodeId)
        ensures
            id@ == bytes@,
    {
        NodeId { bytes }
    }

    /// The bytes of this node id.
    pub fn as_bytes(&self) -> (b: &Vec<u8>)
        ensures
            b@ == self@,
    {
        &self.bytes
    }

    /// Whether two node ids are the same.
    pub fn same_as(&self, other: &NodeId) -> (r: bool)
        ensures
            r == (self@ == other@),
    {
        let n = self.bytes.len();
        if n != other.bytes.len() {
            return false;
        }
        let mut i: usize = 0;
        while i < n
            invariant
                n == self@.len(),
                n == other@.len(),
                i <= n,
                forall|j: int| 0 <= j < i ==> self@[j] == other@[j],
            decreases n - i,
        {
            if self.bytes[i] != other.bytes[i] {
                return false;
            }
            i = i + 1;
        }
        assert(self@ =~= other@);
        true
    }
}

} // verus!
