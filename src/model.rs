use vstd::prelude::*;
use crate::bundle::{
    Bundle, ChangeLogEvent, Creator, InstructionKind, LeafSchema, MetadataArgs, Payload, Uses,
};
use crate::leaf::leaf_node;
use crate::types::{IngesterError, NodeHash, Pubkey};

verus! {

/// How an asset is owned.
#[derive(Debug, Clone, Copy, PartialEq, Eq, Structural)]
pub enum OwnerType {
    Single,
    Token,
}

/// Who receives an asset's royalties.
#[derive(Debug, Clone, Copy, PartialEq, Eq, Structural)]
pub enum RoyaltyTargetType {
    Creators,
    Fanout,
    Single,
}

/// The token standard recorded in an asset's chain data.
#[derive(Debug, Clone, Copy, PartialEq, Eq, Structural)]
pub enum TokenStandard {
    NonFungible,
}

/// The key of a grouping row.
#[derive(Debug, Clone, Copy, PartialEq, Eq, Structural)]
pub enum GroupKey {
    Collection,
}

/// One accepted tree update: `(tree_id, seq)` is unique in the changelog.
#[derive(Debug, Clone, Copy, PartialEq, Eq)]
pub struct ChangelogEntry {
    pub tree_id: Pubkey,
    pub seq: u64,
    pub node_index: u32,
    pub hash: NodeHash,
    pub created_at: i64,
}

/// The mutable row of one compressed asset, keyed by its immutable id.
#[derive(Debug, Clone, Copy, PartialEq, Eq)]
pub struct Asset {
    pub id: Pubkey,
    pub owner: Pubkey,
    pub delegate: Option<Pubkey>,
    pub owner_type: OwnerType,
    pub frozen: bool,
    pub supply: u64,
    pub compressed: bool,
    pub burnt: bool,
    pub tree_id: Pubkey,
    pub nonce: u64,
    pub leaf: Option<NodeHash>,
    pub royalty_target_type: RoyaltyTargetType,
    pub royalty_target: Option<Pubkey>,
    pub royalty_amount: u16,
    pub chain_data_id: Pubkey,
    pub seq: u64,
}

/// The on-chain metadata of an asset, kept as structured data.
#[derive(Debug)]
pub struct ChainData {
    pub name: String,
    pub symbol: String,
    pub edition_nonce: Option<u8>,
    pub primary_sale_happened: bool,
    pub token_standard: TokenStandard,
    pub uses: Option<Uses>,
}

/// The data row of an asset; its id is the asset's id.
#[derive(Debug)]
pub struct AssetData {
    pub id: Pubkey,
    pub chain_data: ChainData,
    pub metadata_url: String,
    pub chain_data_mutable: bool,
    pub metadata_mutable: bool,
}

/// One creator of an asset, written at mint.
#[derive(Debug, Clone, Copy, PartialEq, Eq)]
pub struct AssetCreator {
    pub asset_id: Pubkey,
    pub creator: Pubkey,
    pub share: u8,
    pub verified: bool,
    pub seq: u64,
}

/// The update authority of an asset.
#[derive(Debug, Clone, Copy, PartialEq, Eq)]
pub struct AssetAuthority {
    pub asset_id: Pubkey,
    pub authority: Pubkey,
    pub seq: u64,
}

/// A group membership of an asset (its verified collection).
#[derive(Debug, Clone, Copy, PartialEq, Eq)]
pub struct AssetGrouping {
    pub asset_id: Pubkey,
    pub group_key: GroupKey,
    pub group_value: Pubkey,
    pub seq: u64,
}

/// What processing one bundle did.
#[derive(Debug, Clone, Copy, PartialEq, Eq, Structural)]
pub enum Outcome {
    /// The bundle's rows were written under this sequence number.
    Applied(u64),
    /// The changelog took the bundle, but the asset row was absent or
    /// already newer (or, for a mint, already present): nothing else changed.
    Superseded(u64),
    /// The bundle's `(tree_id, seq)` was already in the changelog.
    Duplicate,
}

/// The column changes of one non-mint instruction on an asset row.
#[derive(Debug, Clone, Copy, PartialEq, Eq)]
pub enum RowEffect {
    Transfer { owner: Pubkey, leaf: NodeHash },
    Delegate { owner: Pubkey, delegate: Option<Pubkey>, leaf: NodeHash },
    Burn,
    Redeem,
    Decompress,
    Verify { leaf: NodeHash },
}

/// The tables of the materialized view, as sequences of rows.
pub struct StoreModel {
    pub changelog: Seq<ChangelogEntry>,
    pub assets: Seq<Asset>,
    pub asset_data: Seq<AssetData>,
    pub creators: Seq<AssetCreator>,
    pub authorities: Seq<AssetAuthority>,
    pub groupings: Seq<AssetGrouping>,
}

/// `delegate == owner` is stored as no delegate.
pub open spec fn normalized_delegate(owner: Pubkey, delegate: Pubkey) -> Option<Pubkey> {
    if owner == delegate {
        None
    } else {
        Some(delegate)
    }
}

pub open spec fn has_entry(cl: Seq<ChangelogEntry>, tree_id: Pubkey, seq: u64) -> bool {
    exists|i: int| 0 <= i < cl.len() && cl[i].tree_id == tree_id && cl[i].seq == seq
}

pub open spec fn has_asset(assets: Seq<Asset>, id: Pubkey) -> bool {
    exists|i: int| 0 <= i < assets.len() && assets[i].id == id
}

/// The row of `id` exists and is older than `seq`.
pub open spec fn is_fresh(assets: Seq<Asset>, id: Pubkey, seq: u64) -> bool {
    exists|i: int| 0 <= i < assets.len() && assets[i].id == id && assets[i].seq < seq
}

/// The changelog rows have unique `(tree_id, seq)` keys.
pub open spec fn changelog_unique(cl: Seq<ChangelogEntry>) -> bool {
    forall|i: int, j: int|
        0 <= i < cl.len() && 0 <= j < cl.len() && i != j ==> !(cl[i].tree_id == cl[j].tree_id
            && cl[i].seq == cl[j].seq)
}

/// The asset rows have unique ids.
pub open spec fn assets_unique(assets: Seq<Asset>) -> bool {
    forall|i: int, j: int|
        0 <= i < assets.len() && 0 <= j < assets.len() && i != j ==> assets[i].id != assets[j].id
}

/// Each asset has at most one data row, one authority row and one
/// grouping row.
pub open spec fn satellites_unique(m: StoreModel) -> bool {
    &&& forall|i: int, j: int|
        0 <= i < m.asset_data.len() && 0 <= j < m.asset_data.len() && i != j ==> m.asset_data[i].id
            != m.asset_data[j].id
    &&& forall|i: int, j: int|
        0 <= i < m.authorities.len() && 0 <= j < m.authorities.len() && i != j
            ==> m.authorities[i].asset_id != m.authorities[j].asset_id
    &&& forall|i: int, j: int|
        0 <= i < m.groupings.len() && 0 <= j < m.groupings.len() && i != j
            ==> m.groupings[i].asset_id != m.groupings[j].asset_id
}

/// Every satellite row belongs to an existing asset row.
pub open spec fn satellites_linked(m: StoreModel) -> bool {
    &&& forall|i: int| 0 <= i < m.asset_data.len() ==> has_asset(m.assets, #[trigger] m.asset_data[i].id)
    &&& forall|i: int| 0 <= i < m.creators.len() ==> has_asset(m.assets, #[trigger] m.creators[i].asset_id)
    &&& forall|i: int|
        0 <= i < m.authorities.len() ==> has_asset(m.assets, #[trigger] m.authorities[i].asset_id)
    &&& forall|i: int| 0 <= i < m.groupings.len() ==> has_asset(m.assets, #[trigger] m.groupings[i].asset_id)
}

impl StoreModel {
    pub open spec fn wf(self) -> bool {
        &&& changelog_unique(self.changelog)
        &&& assets_unique(self.assets)
        &&& satellites_unique(self)
        &&& satellites_linked(self)
    }

    pub open spec fn with_changelog(self, cl: Seq<ChangelogEntry>) -> StoreModel {
        StoreModel { changelog: cl, ..self }
    }

    /// The rows that describe assets: everything but the changelog.
    pub open spec fn asset_tables_eq(self, other: StoreModel) -> bool {
        &&& self.assets == other.assets
        &&& self.asset_data == other.asset_data
        &&& self.creators == other.creators
        &&& self.authorities == other.authorities
        &&& self.groupings == other.groupings
    }
}

/// The changelog row recorded for a well-formed tree update.
pub open spec fn entry_of(ev: ChangeLogEvent, created_at: i64) -> ChangelogEntry {
    ChangelogEntry {
        tree_id: ev.id,
        seq: ev.seq,
        node_index: ev.index,
        hash: ev.path@[0].node,
        created_at,
    }
}

/// The row `a` after an instruction with effect `e` under sequence `seq`.
pub open spec fn effect_on(a: Asset, e: RowEffect, seq: u64) -> Asset {
    match e {
        RowEffect::Transfer { owner, leaf } => Asset {
            owner,
            delegate: None,
            leaf: Some(leaf),
            seq,
            ..a
        },
        RowEffect::Delegate { owner, delegate, leaf } => Asset {
            owner,
            delegate,
            leaf: Some(leaf),
            seq,
            ..a
        },
        RowEffect::Burn => Asset { supply: 0, burnt: true, leaf: None, seq, ..a },
        RowEffect::Redeem => Asset { leaf: None, seq, ..a },
        RowEffect::Decompress => Asset { compressed: false, seq, ..a },
        RowEffect::Verify { leaf } => Asset { leaf: Some(leaf), seq, ..a },
    }
}

/// Applies `e` to the row of `id` only where that row is older than `seq`.
pub open spec fn fenced_update(assets: Seq<Asset>, id: Pubkey, seq: u64, e: RowEffect) -> Seq<
    Asset,
> {
    assets.map_values(
        |a: Asset|
            if a.id == id && a.seq < seq {
                effect_on(a, e, seq)
            } else {
                a
            },
    )
}

/// A fenced update of a row that is absent or not older than `seq`
/// changes nothing.
pub proof fn lemma_stale_update_is_noop(assets: Seq<Asset>, id: Pubkey, seq: u64, e: RowEffect)
    requires
        !is_fresh(assets, id, seq),
    ensures
        fenced_update(assets, id, seq, e) == assets,
{
    let f = fenced_update(assets, id, seq, e);
    assert forall|j: int| 0 <= j < assets.len() implies f[j] == assets[j] by {
        if assets[j].id == id && assets[j].seq < seq {
            assert(is_fresh(assets, id, seq));
        }
    }
    assert(f =~= assets);
}

/// The row effect of a non-mint instruction that wrote `leaf`.
pub open spec fn effect_of(kind: InstructionKind, leaf: LeafSchema) -> RowEffect {
    match kind {
        InstructionKind::Transfer => RowEffect::Transfer {
            owner: leaf.owner,
            leaf: leaf_node(leaf),
        },
        InstructionKind::Delegate => RowEffect::Delegate {
            owner: leaf.owner,
            delegate: normalized_delegate(leaf.owner, leaf.delegate),
            leaf: leaf_node(leaf),
        },
        InstructionKind::Burn => RowEffect::Burn,
        InstructionKind::Redeem => RowEffect::Redeem,
        InstructionKind::Decompress => RowEffect::Decompress,
        _ => RowEffect::Verify { leaf: leaf_node(leaf) },
    }
}

/// Sets the collection of `id` to `key`, inserting the grouping row if absent.
pub open spec fn upsert_collection(
    groupings: Seq<AssetGrouping>,
    id: Pubkey,
    key: Pubkey,
    seq: u64,
) -> Seq<AssetGrouping> {
    if exists|i: int| 0 <= i < groupings.len() && groupings[i].asset_id == id {
        groupings.map_values(
            |g: AssetGrouping|
                if g.asset_id == id {
                    AssetGrouping { group_value: key, seq, ..g }
                } else {
                    g
                },
        )
    } else {
        groupings.push(AssetGrouping { asset_id: id, group_key: GroupKey::Collection, group_value: key, seq })
    }
}

pub open spec fn minted_asset(
    leaf: LeafSchema,
    leaf_hash: NodeHash,
    args: MetadataArgs,
    tree_id: Pubkey,
    seq: u64,
) -> Asset {
    Asset {
        id: leaf.id,
        owner: leaf.owner,
        delegate: normalized_delegate(leaf.owner, leaf.delegate),
        owner_type: OwnerType::Single,
        frozen: false,
        supply: 1,
        compressed: true,
        burnt: false,
        tree_id,
        nonce: leaf.nonce,
        leaf: Some(leaf_hash),
        royalty_target_type: RoyaltyTargetType::Creators,
        royalty_target: None,
        royalty_amount: args.seller_fee_basis_points,
        chain_data_id: leaf.id,
        seq,
    }
}

pub open spec fn minted_data(id: Pubkey, args: MetadataArgs) -> AssetData {
    AssetData {
        id,
        chain_data: ChainData {
            name: args.name,
            symbol: args.symbol,
            edition_nonce: args.edition_nonce,
            primary_sale_happened: args.primary_sale_happened,
            token_standard: TokenStandard::NonFungible,
            uses: args.uses,
        },
        metadata_url: args.uri,
        chain_data_mutable: args.is_mutable,
        metadata_mutable: true,
    }
}

pub open spec fn creator_row(id: Pubkey, c: Creator, seq: u64) -> AssetCreator {
    AssetCreator { asset_id: id, creator: c.address, share: c.share, verified: c.verified, seq }
}

pub open spec fn creator_rows(id: Pubkey, creators: Seq<Creator>, seq: u64) -> Seq<AssetCreator> {
    creators.map_values(|c: Creator| creator_row(id, c, seq))
}

/// The grouping rows after a mint: a verified collection joins its group.
pub open spec fn minted_groupings(
    groupings: Seq<AssetGrouping>,
    id: Pubkey,
    collection: Option<crate::bundle::Collection>,
    seq: u64,
) -> Seq<AssetGrouping> {
    match collection {
        Some(c) => if c.verified {
            groupings.push(
                AssetGrouping { asset_id: id, group_key: GroupKey::Collection, group_value: c.key, seq },
            )
        } else {
            groupings
        },
        None => groupings,
    }
}

/// The tables after inserting a new asset and its satellite rows.
pub open spec fn mint_model(
    m: StoreModel,
    leaf: LeafSchema,
    leaf_hash: NodeHash,
    args: MetadataArgs,
    authority: Pubkey,
    tree_id: Pubkey,
    seq: u64,
) -> StoreModel {
    let id = leaf.id;
    StoreModel {
        changelog: m.changelog,
        assets: m.assets.push(minted_asset(leaf, leaf_hash, args, tree_id, seq)),
        asset_data: m.asset_data.push(minted_data(id, args)),
        creators: m.creators + creator_rows(id, args.creators@, seq),
        authorities: m.authorities.push(AssetAuthority { asset_id: id, authority, seq }),
        groupings: minted_groupings(m.groupings, id, args.collection, seq),
    }
}

/// `after` is `before` with `e` applied to the row of `id` under the fence
/// of `seq`, and `r` reports whether that row was fresh.
pub open spec fn updated_by_effect(
    before: StoreModel,
    after: StoreModel,
    r: Result<Outcome, IngesterError>,
    id: Pubkey,
    seq: u64,
    e: RowEffect,
) -> bool {
    &&& after == (if is_fresh(before.assets, id, seq) {
        StoreModel { assets: fenced_update(before.assets, id, seq, e), ..before }
    } else {
        before
    })
    &&& r == Ok::<Outcome, IngesterError>(
        if is_fresh(before.assets, id, seq) {
            Outcome::Applied(seq)
        } else {
            Outcome::Superseded(seq)
        },
    )
}

/// The error the applier raises on a bundle, if any: a missing leaf update
/// or a payload that does not fit the instruction is a parsing error, an
/// unknown leaf schema version is not implemented.
pub open spec fn apply_error(b: Bundle) -> Option<IngesterError> {
    match b.leaf_update {
        None => Some(IngesterError::ParsingError),
        Some(lu) => {
            let payload_ok = match b.instruction {
                InstructionKind::Mint => b.payload matches Some(Payload::MintV1 { .. }),
                InstructionKind::VerifyCollection | InstructionKind::SetAndVerifyCollection => {
                    b.payload matches Some(Payload::CollectionVerification { .. })
                },
                _ => true,
            };
            if !payload_ok {
                Some(IngesterError::ParsingError)
            } else if lu.version != 1 {
                Some(IngesterError::NotImplemented)
            } else {
                None
            }
        },
    }
}

/// The tables and outcome of applying a bundle that `apply_error` accepts,
/// under the sequence number `seq` of tree `tree_id`.
pub open spec fn apply_model(m: StoreModel, b: Bundle, tree_id: Pubkey, seq: u64) -> (StoreModel, Outcome) {
    match b.leaf_update {
        None => (m, Outcome::Superseded(seq)),
        Some(lu) => {
            let id = lu.id;
            match b.instruction {
                InstructionKind::Mint => {
                    match b.payload {
                        Some(Payload::MintV1 { args, update_authority }) => if has_asset(m.assets, id) {
                            (m, Outcome::Superseded(seq))
                        } else {
                            (mint_model(m, lu, leaf_node(lu), args, update_authority, tree_id, seq), Outcome::Applied(seq))
                        },
                        _ => (m, Outcome::Superseded(seq)),
                    }
                },
                InstructionKind::VerifyCollection | InstructionKind::SetAndVerifyCollection => {
                    match b.payload {
                        Some(Payload::CollectionVerification { collection }) => if is_fresh(m.assets, id, seq) {
                            (StoreModel {
                                assets: fenced_update(m.assets, id, seq, effect_of(b.instruction, lu)),
                                groupings: upsert_collection(m.groupings, id, collection, seq),
                                ..m
                            }, Outcome::Applied(seq))
                        } else {
                            (m, Outcome::Superseded(seq))
                        },
                        _ => (m, Outcome::Superseded(seq)),
                    }
                },
                _ => if is_fresh(m.assets, id, seq) {
                    (StoreModel {
                        assets: fenced_update(m.assets, id, seq, effect_of(b.instruction, lu)),
                        ..m
                    }, Outcome::Applied(seq))
                } else {
                    (m, Outcome::Superseded(seq))
                },
            }
        },
    }
}

/// The tree update is present and carries at least the leaf's node.
pub open spec fn well_formed_event(b: Bundle) -> bool {
    match b.tree_update {
        Some(ev) => ev.path@.len() > 0,
        None => false,
    }
}

/// Processing one bundle as one atomic unit: sequence its tree update,
/// then apply it; any failure leaves every table as it was.
pub open spec fn process_model(m: StoreModel, b: Bundle, created_at: i64) -> (
    StoreModel,
    Result<Outcome, IngesterError>,
) {
    match b.tree_update {
        None => (m, Err(IngesterError::ChangeLogEventMalformed)),
        Some(ev) => if ev.path@.len() == 0 {
            (m, Err(IngesterError::ChangeLogEventMalformed))
        } else if has_entry(m.changelog, ev.id, ev.seq) {
            (m, Ok(Outcome::Duplicate))
        } else {
            match apply_error(b) {
                Some(e) => (m, Err(e)),
                None => {
                    let m1 = m.with_changelog(m.changelog.push(entry_of(ev, created_at)));
                    let (m2, out) = apply_model(m1, b, ev.id, ev.seq);
                    (m2, Ok(out))
                },
            }
        },
    }
}

/// Replacing the changelog by one with unique keys keeps the tables well formed.
pub proof fn lemma_with_changelog_keeps_wf(m: StoreModel, cl: Seq<ChangelogEntry>)
    requires
        m.wf(),
        changelog_unique(cl),
    ensures
        m.with_changelog(cl).wf(),
{
}

proof fn lemma_has_asset_push(assets: Seq<Asset>, a: Asset)
    ensures
        has_asset(assets.push(a), a.id),
        forall|x: Pubkey| has_asset(assets, x) ==> has_asset(assets.push(a), x),
{
    assert(assets.push(a)[assets.len() as int] == a);
    assert forall|x: Pubkey| has_asset(assets, x) implies has_asset(assets.push(a), x) by {
        let i = choose|i: int| 0 <= i < assets.len() && assets[i].id == x;
        assert(assets.push(a)[i] == assets[i]);
    }
}

proof fn lemma_has_asset_fenced(assets: Seq<Asset>, id: Pubkey, seq: u64, e: RowEffect)
    ensures
        forall|x: Pubkey| has_asset(assets, x) ==> has_asset(fenced_update(assets, id, seq, e), x),
{
    let f = fenced_update(assets, id, seq, e);
    assert forall|x: Pubkey| has_asset(assets, x) implies has_asset(f, x) by {
        let i = choose|i: int| 0 <= i < assets.len() && assets[i].id == x;
        assert(f[i].id == x);
    }
}

/// A fenced update keeps the tables well formed, and keeps every asset.
pub proof fn lemma_fenced_keeps_wf(m: StoreModel, id: Pubkey, seq: u64, e: RowEffect)
    requires
        m.wf(),
    ensures
        (StoreModel { assets: fenced_update(m.assets, id, seq, e), ..m }).wf(),
        forall|x: Pubkey| has_asset(m.assets, x) ==> has_asset(fenced_update(m.assets, id, seq, e), x),
{
    let f = fenced_update(m.assets, id, seq, e);
    assert forall|j: int| 0 <= j < f.len() implies f[j].id == m.assets[j].id by {}
    lemma_has_asset_fenced(m.assets, id, seq, e);
}

/// Setting the collection of an existing asset keeps the tables well formed.
pub proof fn lemma_upsert_keeps_wf(m: StoreModel, id: Pubkey, key: Pubkey, seq: u64)
    requires
        m.wf(),
        has_asset(m.assets, id),
    ensures
        (StoreModel { groupings: upsert_collection(m.groupings, id, key, seq), ..m }).wf(),
{
    let g = m.groupings;
    let u = upsert_collection(g, id, key, seq);
    if exists|i: int| 0 <= i < g.len() && g[i].asset_id == id {
        assert forall|j: int| 0 <= j < u.len() implies u[j].asset_id == g[j].asset_id by {}
    } else {
        assert(u[g.len() as int].asset_id == id);
        assert forall|j: int| 0 <= j < g.len() implies u[j] == g[j] && g[j].asset_id != id by {}
    }
}

/// Minting an absent asset keeps the tables well formed.
pub proof fn lemma_mint_keeps_wf(
    m: StoreModel,
    leaf: LeafSchema,
    leaf_hash: NodeHash,
    args: MetadataArgs,
    authority: Pubkey,
    tree_id: Pubkey,
    seq: u64,
)
    requires
        m.wf(),
        !has_asset(m.assets, leaf.id),
    ensures
        mint_model(m, leaf, leaf_hash, args, authority, tree_id, seq).wf(),
{
    let id = leaf.id;
    let r = mint_model(m, leaf, leaf_hash, args, authority, tree_id, seq);
    let a = minted_asset(leaf, leaf_hash, args, tree_id, seq);
    lemma_has_asset_push(m.assets, a);
    assert forall|i: int, j: int|
        0 <= i < r.assets.len() && 0 <= j < r.assets.len() && i != j implies r.assets[i].id
        != r.assets[j].id by {
        if i < m.assets.len() && j < m.assets.len() {
            assert(r.assets[i] == m.assets[i] && r.assets[j] == m.assets[j]);
        } else if i == m.assets.len() {
            assert(r.assets[j] == m.assets[j]);
        } else {
            assert(r.assets[i] == m.assets[i]);
        }
    }
    assert forall|i: int| 0 <= i < m.asset_data.len() implies m.asset_data[i].id != id by {
        assert(has_asset(m.assets, m.asset_data[i].id));
    }
    assert forall|i: int| 0 <= i < m.authorities.len() implies m.authorities[i].asset_id != id by {
        assert(has_asset(m.assets, m.authorities[i].asset_id));
    }
    assert forall|i: int| 0 <= i < m.groupings.len() implies m.groupings[i].asset_id != id by {
        assert(has_asset(m.assets, m.groupings[i].asset_id));
    }
    assert(r.asset_data[m.asset_data.len() as int].id == id);
    assert(r.authorities[m.authorities.len() as int].asset_id == id);
    assert forall|i: int| 0 <= i < r.asset_data.len() implies has_asset(r.assets, #[trigger] r.asset_data[i].id) by {
        if i < m.asset_data.len() {
            assert(r.asset_data[i] == m.asset_data[i]);
        }
    }
    assert forall|i: int| 0 <= i < r.authorities.len() implies has_asset(r.assets, #[trigger] r.authorities[i].asset_id) by {
        if i < m.authorities.len() {
            assert(r.authorities[i] == m.authorities[i]);
        }
    }
    let rows = creator_rows(id, args.creators@, seq);
    assert forall|i: int| 0 <= i < r.creators.len() implies has_asset(r.assets, #[trigger] r.creators[i].asset_id) by {
        if i < m.creators.len() {
            assert(r.creators[i] == m.creators[i]);
        } else {
            assert(r.creators[i] == rows[i - m.creators.len()]);
        }
    }
    match args.collection {
        Some(c) => if c.verified {
            assert(r.groupings[m.groupings.len() as int].asset_id == id);
            assert forall|i: int| 0 <= i < m.groupings.len() implies r.groupings[i] == m.groupings[i] by {}
        },
        None => {},
    }
    assert forall|i: int| 0 <= i < r.groupings.len() implies has_asset(r.assets, #[trigger] r.groupings[i].asset_id) by {
        if i < m.groupings.len() {
            assert(r.groupings[i] == m.groupings[i]);
        }
    }
}

} // verus!
