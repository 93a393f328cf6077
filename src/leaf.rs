use vstd::prelude::*;
use crate::bundle::LeafSchema;
use crate::types::NodeHash;

verus! {

/// The hash of a version-1 leaf with these fields.
pub uninterp spec fn leaf_hash_of(
    id: [u8; 32],
    owner: [u8; 32],
    delegate: [u8; 32],
    nonce: u64,
    data_hash: [u8; 32],
    creator_hash: [u8; 32],
) -> [u8; 32];

/// The node that a leaf occupies in its tree.
pub open spec fn leaf_node(l: LeafSchema) -> NodeHash {
    leaf_hash_of(l.id, l.owner, l.delegate, l.nonce, l.data_hash, l.creator_hash)
}

/// Relies on mpl_bubblegum::types::LeafSchema::hash: the Keccak-256 digest
/// of a version-1 leaf, which depends on the leaf's fields alone.
#[verifier::external_body]
pub(crate) fn hash_leaf(l: &LeafSchema) -> (r: NodeHash)
    ensures
        r == leaf_hash_of(l.id, l.owner, l.delegate, l.nonce, l.data_hash, l.creator_hash),
{
    mpl_bubblegum::types::LeafSchema::V1 {
        id: l.id.into(),
        owner: l.owner.into(),
        delegate: l.delegate.into(),
        nonce: l.nonce,
        data_hash: l.data_hash,
        creator_hash: l.creator_hash,
    }.hash()
}

} // verus!
