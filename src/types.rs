use vstd::prelude::*;

verus! {

/// A 32-byte account address (asset id, owner, tree, creator, ...).
pub type Pubkey = [u8; 32];

/// A 32-byte hash (Merkle node, leaf hash).
pub type NodeHash = [u8; 32];

/// Compares two 32-byte keys byte by byte.
pub fn keys_eq(a: &[u8; 32], b: &[u8; 32]) -> (r: bool)
    ensures
        r == (*a == *b),
{
    let mut i: usize = 0;
    while i < 32
        invariant
            0 <= i <= 32,
            a@.len() == 32,
            b@.len() == 32,
            forall|j: int| 0 <= j < i ==> a@[j] == b@[j],
        decreases 32 - i,
    {
        if a[i] != b[i] {
            return false;
        }
        i = i + 1;
    }
    proof {
        assert(a@ =~= b@);
        vstd::array::axiom_array_ext_equal(*a, *b);
    }
    true
}

/// The errors of the ingestion pipeline.
#[derive(Debug, Clone, Copy, PartialEq, Eq, Structural)]
pub enum IngesterError {
    /// An instruction or its payload could not be decoded.
    ParsingError,
    /// The tree update of a bundle is missing or structurally invalid.
    ChangeLogEventMalformed,
    /// A recognised variant that this pipeline does not handle.
    NotImplemented,
    /// A failure of the store or of its connection.
    DatabaseError,
    /// A startup configuration problem.
    ConfigurationError,
}

} // verus!
