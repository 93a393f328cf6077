use vstd::prelude::*;
use crate::types::{NodeHash, Pubkey};

verus! {

/// The instructions of the tracked program that the pipeline understands.
#[derive(Debug, Clone, Copy, PartialEq, Eq, Structural)]
pub enum InstructionKind {
    Mint,
    Transfer,
    Delegate,
    Burn,
    Redeem,
    Decompress,
    VerifyCollection,
    SetAndVerifyCollection,
}

/// One node of a Merkle path: its index in the tree and its hash.
#[derive(Debug, Clone, Copy, PartialEq, Eq)]
pub struct PathNode {
    pub index: u32,
    pub node: NodeHash,
}

/// The tree update carried by an instruction: the changed path of the
/// tree `id`, ordered from the leaf up, and the tree's sequence number.
#[derive(Debug)]
pub struct ChangeLogEvent {
    pub id: Pubkey,
    pub path: Vec<PathNode>,
    pub seq: u64,
    pub index: u32,
}

/// The canonical representation of one compressed asset in its tree, as
/// written by an instruction.
#[derive(Debug, Clone, Copy, PartialEq, Eq)]
pub struct LeafSchema {
    pub version: u8,
    pub id: Pubkey,
    pub owner: Pubkey,
    pub delegate: Pubkey,
    pub nonce: u64,
    pub data_hash: NodeHash,
    pub creator_hash: NodeHash,
}

/// A creator listed in an asset's metadata.
#[derive(Debug, Clone, Copy, PartialEq, Eq)]
pub struct Creator {
    pub address: Pubkey,
    pub verified: bool,
    pub share: u8,
}

/// The collection an asset's metadata names.
#[derive(Debug, Clone, Copy, PartialEq, Eq)]
pub struct Collection {
    pub verified: bool,
    pub key: Pubkey,
}

/// How a limited-use asset may be used.
#[derive(Debug, Clone, Copy, PartialEq, Eq, Structural)]
pub enum UseMethod {
    Burn,
    Multiple,
    Single,
}

/// The use limits of an asset.
#[derive(Debug, Clone, Copy, PartialEq, Eq, Structural)]
pub struct Uses {
    pub use_method: UseMethod,
    pub remaining: u64,
    pub total: u64,
}

/// The metadata a mint instruction carries.
#[derive(Debug)]
pub struct MetadataArgs {
    pub name: String,
    pub symbol: String,
    pub uri: String,
    pub seller_fee_basis_points: u16,
    pub primary_sale_happened: bool,
    pub is_mutable: bool,
    pub edition_nonce: Option<u8>,
    pub collection: Option<Collection>,
    pub uses: Option<Uses>,
    pub creators: Vec<Creator>,
}

/// The instruction-specific arguments of a bundle.
#[derive(Debug)]
pub enum Payload {
    /// A mint: the new asset's metadata and its update authority.
    MintV1 { args: MetadataArgs, update_authority: Pubkey },
    /// A collection verification: the collection the asset joins.
    CollectionVerification { collection: Pubkey },
}

/// One decoded instruction of the tracked program with the tree update,
/// leaf update and payload that were extracted for it.
#[derive(Debug)]
pub struct Bundle {
    pub instruction: InstructionKind,
    pub tree_update: Option<ChangeLogEvent>,
    pub leaf_update: Option<LeafSchema>,
    pub payload: Option<Payload>,
}

} // verus!
