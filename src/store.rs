use vstd::prelude::*;
use crate::bundle::{Bundle, ChangeLogEvent, InstructionKind, LeafSchema, MetadataArgs, Payload};
use crate::model::{
    apply_error, apply_model, creator_row, creator_rows, effect_of, effect_on, entry_of,
    fenced_update, has_asset, has_entry, is_fresh, lemma_fenced_keeps_wf, lemma_mint_keeps_wf,
    lemma_stale_update_is_noop, lemma_upsert_keeps_wf, lemma_with_changelog_keeps_wf, mint_model,
    minted_asset, minted_data, normalized_delegate, process_model, updated_by_effect,
    upsert_collection, Asset, AssetAuthority, AssetCreator, AssetData, AssetGrouping, ChainData,
    ChangelogEntry, GroupKey, Outcome, OwnerType, RoyaltyTargetType, RowEffect, StoreModel,
    TokenStandard,
};
use crate::leaf::{hash_leaf, leaf_node};
use crate::types::{keys_eq, IngesterError, NodeHash, Pubkey};

verus! {

/// The materialized view: the changelog and the asset tables.
pub struct Store {
    changelog: Vec<ChangelogEntry>,
    assets: Vec<Asset>,
    asset_data: Vec<AssetData>,
    creators: Vec<AssetCreator>,
    authorities: Vec<AssetAuthority>,
    groupings: Vec<AssetGrouping>,
}

impl View for Store {
    type V = StoreModel;

    closed spec fn view(&self) -> StoreModel {
        StoreModel {
            changelog: self.changelog@,
            assets: self.assets@,
            asset_data: self.asset_data@,
            creators: self.creators@,
            authorities: self.authorities@,
            groupings: self.groupings@,
        }
    }
}

/// `delegate == owner` is stored as no delegate.
pub fn normalize_delegate(owner: &Pubkey, delegate: &Pubkey) -> (r: Option<Pubkey>)
    ensures
        r == normalized_delegate(*owner, *delegate),
{
    if keys_eq(owner, delegate) {
        None
    } else {
        Some(*delegate)
    }
}

fn apply_effect(a: Asset, e: RowEffect, seq: u64) -> (r: Asset)
    ensures
        r == effect_on(a, e, seq),
{
    match e {
        RowEffect::Transfer { owner, leaf } => Asset { owner, delegate: None, leaf: Some(leaf), seq, ..a },
        RowEffect::Delegate { owner, delegate, leaf } => Asset {
            owner,
            delegate,
            leaf: Some(leaf),
            seq,
            ..a
        },
        RowEffect::Burn => Asset { supply: 0, burnt: true, leaf: None, seq, ..a },
        RowEffect::Redeem => Asset { leaf: None, seq, ..a },
        RowEffect::Decompress => Asset { compressed: false, seq, ..a },
        RowEffect::Verify { leaf } => Asset { leaf: Some(leaf), seq, ..a },
    }
}

impl Store {
    pub open spec fn wf(&self) -> bool {
        self@.wf()
    }

    /// An empty store.
    pub fn new() -> (s: Store)
        ensures
            s.wf(),
            s@.changelog.len() == 0,
            s@.assets.len() == 0,
            s@.asset_data.len() == 0,
            s@.creators.len() == 0,
            s@.authorities.len() == 0,
            s@.groupings.len() == 0,
    {
        Store {
            changelog: Vec::new(),
            assets: Vec::new(),
            asset_data: Vec::new(),
            creators: Vec::new(),
            authorities: Vec::new(),
            groupings: Vec::new(),
        }
    }

    pub fn changelog(&self) -> (r: &Vec<ChangelogEntry>)
        ensures
            r@ == self@.changelog,
    {
        &self.changelog
    }

    pub fn assets(&self) -> (r: &Vec<Asset>)
        ensures
            r@ == self@.assets,
    {
        &self.assets
    }

    pub fn asset_data(&self) -> (r: &Vec<AssetData>)
        ensures
            r@ == self@.asset_data,
    {
        &self.asset_data
    }

    pub fn creators(&self) -> (r: &Vec<AssetCreator>)
        ensures
            r@ == self@.creators,
    {
        &self.creators
    }

    pub fn authorities(&self) -> (r: &Vec<AssetAuthority>)
        ensures
            r@ == self@.authorities,
    {
        &self.authorities
    }

    pub fn groupings(&self) -> (r: &Vec<AssetGrouping>)
        ensures
            r@ == self@.groupings,
    {
        &self.groupings
    }

    /// Whether `(tree_id, seq)` is already in the changelog.
    pub fn has_changelog_entry(&self, tree_id: &Pubkey, seq: u64) -> (r: bool)
        ensures
            r == has_entry(self@.changelog, *tree_id, seq),
    {
        let mut i: usize = 0;
        while i < self.changelog.len()
            invariant
                i <= self.changelog@.len(),
                forall|j: int|
                    0 <= j < i ==> !(self.changelog@[j].tree_id == *tree_id
                        && self.changelog@[j].seq == seq),
            decreases self.changelog@.len() - i,
        {
            let e = self.changelog[i];
            if e.seq == seq && keys_eq(&e.tree_id, tree_id) {
                return true;
            }
            i = i + 1;
        }
        false
    }

    /// The position of the asset row `id`, if there is one.
    pub fn find_asset(&self, id: &Pubkey) -> (r: Option<usize>)
        ensures
            match r {
                Some(i) => i < self@.assets.len() && self@.assets[i as int].id == *id,
                None => !has_asset(self@.assets, *id),
            },
    {
        let mut i: usize = 0;
        while i < self.assets.len()
            invariant
                i <= self.assets@.len(),
                forall|j: int| 0 <= j < i ==> self.assets@[j].id != *id,
            decreases self.assets@.len() - i,
        {
            if keys_eq(&self.assets[i].id, id) {
                return Some(i);
            }
            i = i + 1;
        }
        None
    }

    /// Appends the tree update to the changelog unless its `(tree_id, seq)`
    /// is already there. Returns the sequence number as the fencing token
    /// of the bundle, `None` for a duplicate, and an error for an update
    /// with an empty path.
    pub fn save_changelog_event(&mut self, ev: &ChangeLogEvent, created_at: i64) -> (r: Result<
        Option<u64>,
        IngesterError,
    >)
        requires
            old(self).wf(),
        ensures
            final(self).wf(),
            ev.path@.len() == 0 ==> r == Err::<Option<u64>, IngesterError>(
                IngesterError::ChangeLogEventMalformed,
            ) && final(self)@ == old(self)@,
            ev.path@.len() > 0 && has_entry(old(self)@.changelog, ev.id, ev.seq) ==> r == Ok::<
                Option<u64>,
                IngesterError,
            >(None) && final(self)@ == old(self)@,
            ev.path@.len() > 0 && !has_entry(old(self)@.changelog, ev.id, ev.seq) ==> r == Ok::<
                Option<u64>,
                IngesterError,
            >(Some(ev.seq)) && final(self)@ == old(self)@.with_changelog(
                old(self)@.changelog.push(entry_of(*ev, created_at)),
            ),
    {
        if ev.path.len() == 0 {
            return Err(IngesterError::ChangeLogEventMalformed);
        }
        if self.has_changelog_entry(&ev.id, ev.seq) {
            return Ok(None);
        }
        let entry = ChangelogEntry {
            tree_id: ev.id,
            seq: ev.seq,
            node_index: ev.index,
            hash: ev.path[0].node,
            created_at,
        };
        self.changelog.push(entry);
        proof {
            let cl = self.changelog@;
            assert forall|i: int, j: int|
                0 <= i < cl.len() && 0 <= j < cl.len() && i != j implies !(cl[i].tree_id
                == cl[j].tree_id && cl[i].seq == cl[j].seq) by {
                if i < cl.len() - 1 && j < cl.len() - 1 {
                    assert(cl[i] == old(self)@.changelog[i]);
                    assert(cl[j] == old(self)@.changelog[j]);
                } else if i == cl.len() - 1 {
                    assert(cl[j] == old(self)@.changelog[j]);
                } else {
                    assert(cl[i] == old(self)@.changelog[i]);
                }
            }
            lemma_with_changelog_keeps_wf(old(self)@, cl);
        }
        Ok(Some(ev.seq))
    }

    /// Applies `e` to the row of `id` if that row is older than `seq`; a row
    /// that is absent or not older is left as it is.
    pub fn apply_row_effect(&mut self, id: &Pubkey, seq: u64, e: RowEffect) -> (r: Outcome)
        requires
            old(self).wf(),
        ensures
            final(self).wf(),
            final(self)@ == (if is_fresh(old(self)@.assets, *id, seq) {
                StoreModel { assets: fenced_update(old(self)@.assets, *id, seq, e), ..old(self)@ }
            } else {
                old(self)@
            }),
            r == (if is_fresh(old(self)@.assets, *id, seq) {
                Outcome::Applied(seq)
            } else {
                Outcome::Superseded(seq)
            }),
    {
        let ghost old_assets = self.assets@;
        let ghost target = fenced_update(old_assets, *id, seq, e);
        let mut fresh = false;
        let mut i: usize = 0;
        while i < self.assets.len()
            invariant
                i <= self.assets@.len(),
                self.assets@.len() == old_assets.len(),
                target == fenced_update(old_assets, *id, seq, e),
                target.len() == old_assets.len(),
                forall|j: int| 0 <= j < i ==> self.assets@[j] == target[j],
                forall|j: int| i <= j < old_assets.len() ==> self.assets@[j] == old_assets[j],
                fresh == exists|j: int|
                    0 <= j < i && old_assets[j].id == *id && old_assets[j].seq < seq,
                self.changelog@ == old(self).changelog@,
                self.asset_data@ == old(self).asset_data@,
                self.creators@ == old(self).creators@,
                self.authorities@ == old(self).authorities@,
                self.groupings@ == old(self).groupings@,
                old_assets == old(self).assets@,
            decreases self.assets@.len() - i,
        {
            let a = self.assets[i];
            let hit = a.seq < seq && keys_eq(&a.id, id);
            if hit {
                let na = apply_effect(a, e, seq);
                self.assets.set(i, na);
                fresh = true;
            }
            proof {
                let k = i as int;
                assert(target[k] == (if old_assets[k].id == *id && old_assets[k].seq < seq {
                    effect_on(old_assets[k], e, seq)
                } else {
                    old_assets[k]
                }));
                if hit {
                    assert(old_assets[k].id == *id && old_assets[k].seq < seq);
                }
            }
            i = i + 1;
        }
        proof {
            assert(self.assets@ =~= target);
            assert forall|j: int| 0 <= j < target.len() implies target[j].id == old_assets[j].id by {
            }
        }
        proof {
            lemma_fenced_keeps_wf(old(self)@, *id, seq, e);
            if !fresh {
                lemma_stale_update_is_noop(old_assets, *id, seq, e);
                assert(self@ == old(self)@);
            }
        }
        if fresh {
            Outcome::Applied(seq)
        } else {
            Outcome::Superseded(seq)
        }
    }

    /// Sets the verified collection of `id` to `key`, inserting its grouping
    /// row if there is none.
    fn upsert_collection_row(&mut self, id: &Pubkey, key: &Pubkey, seq: u64)
        requires
            old(self).wf(),
            has_asset(old(self)@.assets, *id),
        ensures
            final(self).wf(),
            final(self)@ == (StoreModel {
                groupings: upsert_collection(old(self)@.groupings, *id, *key, seq),
                ..old(self)@
            }),
    {
        proof {
            lemma_upsert_keeps_wf(old(self)@, *id, *key, seq);
        }
        let ghost old_rows = self.groupings@;
        let ghost mapped = old_rows.map_values(
            |g: AssetGrouping|
                if g.asset_id == *id {
                    AssetGrouping { group_value: *key, seq, ..g }
                } else {
                    g
                },
        );
        let mut found = false;
        let mut i: usize = 0;
        while i < self.groupings.len()
            invariant
                i <= self.groupings@.len(),
                self.groupings@.len() == old_rows.len(),
                mapped == old_rows.map_values(
                    |g: AssetGrouping|
                        if g.asset_id == *id {
                            AssetGrouping { group_value: *key, seq, ..g }
                        } else {
                            g
                        },
                ),
                forall|j: int| 0 <= j < i ==> self.groupings@[j] == mapped[j],
                forall|j: int| i <= j < old_rows.len() ==> self.groupings@[j] == old_rows[j],
                found == exists|j: int| 0 <= j < i && old_rows[j].asset_id == *id,
                self.changelog@ == old(self).changelog@,
                self.assets@ == old(self).assets@,
                self.asset_data@ == old(self).asset_data@,
                self.creators@ == old(self).creators@,
                self.authorities@ == old(self).authorities@,
                old_rows == old(self).groupings@,
            decreases self.groupings@.len() - i,
        {
            let g = self.groupings[i];
            let hit = keys_eq(&g.asset_id, id);
            if hit {
                self.groupings.set(i, AssetGrouping { group_value: *key, seq, ..g });
                found = true;
            }
            proof {
                let k = i as int;
                assert(mapped[k] == (if old_rows[k].asset_id == *id {
                    AssetGrouping { group_value: *key, seq, ..old_rows[k] }
                } else {
                    old_rows[k]
                }));
                if hit {
                    assert(old_rows[k].asset_id == *id);
                }
            }
            i = i + 1;
        }
        if found {
            assert(self.groupings@ =~= mapped);
        } else {
            assert forall|j: int| 0 <= j < old_rows.len() implies self.groupings@[j] == old_rows[j] by {
                assert(old_rows[j].asset_id != *id);
                assert(mapped[j] == old_rows[j]);
            }
            assert(self.groupings@ =~= old_rows);
            self.groupings.push(
                AssetGrouping {
                    asset_id: *id,
                    group_key: GroupKey::Collection,
                    group_value: *key,
                    seq,
                },
            );
        }
    }

    /// Handles a mint: checks the leaf's version, hashes the leaf and
    /// inserts the asset with its satellite rows unless it already exists.
    pub fn mint_v1(
        &mut self,
        leaf: &LeafSchema,
        args: MetadataArgs,
        update_authority: &Pubkey,
        tree_id: &Pubkey,
        seq: u64,
    ) -> (r: Result<Outcome, IngesterError>)
        requires
            old(self).wf(),
        ensures
            final(self).wf(),
            leaf.version != 1 ==> r == Err::<Outcome, IngesterError>(
                IngesterError::NotImplemented,
            ) && final(self)@ == old(self)@,
            leaf.version == 1 && has_asset(old(self)@.assets, leaf.id) ==> r == Ok::<
                Outcome,
                IngesterError,
            >(Outcome::Superseded(seq)) && final(self)@ == old(self)@,
            leaf.version == 1 && !has_asset(old(self)@.assets, leaf.id) ==> r == Ok::<
                Outcome,
                IngesterError,
            >(Outcome::Applied(seq)) && final(self)@ == mint_model(
                old(self)@,
                *leaf,
                leaf_node(*leaf),
                args,
                *update_authority,
                *tree_id,
                seq,
            ),
    {
        if leaf.version != 1 {
            return Err(IngesterError::NotImplemented);
        }
        let h = hash_leaf(leaf);
        Ok(self.insert_minted(leaf, h, args, update_authority, tree_id, seq))
    }

    /// Inserts a newly minted asset whose leaf hashes to `leaf_hash`, with
    /// its data, creator, authority and collection rows, unless the asset
    /// row already exists (first mint wins).
    pub fn insert_minted(
        &mut self,
        leaf: &LeafSchema,
        leaf_hash: NodeHash,
        args: MetadataArgs,
        update_authority: &Pubkey,
        tree_id: &Pubkey,
        seq: u64,
    ) -> (r: Outcome)
        requires
            old(self).wf(),
        ensures
            final(self).wf(),
            has_asset(old(self)@.assets, leaf.id) ==> r == Outcome::Superseded(seq) && final(self)@
                == old(self)@,
            !has_asset(old(self)@.assets, leaf.id) ==> r == Outcome::Applied(seq) && final(self)@
                == mint_model(old(self)@, *leaf, leaf_hash, args, *update_authority, *tree_id, seq),
    {
        let id = leaf.id;
        if self.find_asset(&id).is_some() {
            return Outcome::Superseded(seq);
        }
        let ghost m = self@;
        let ghost spec_args = args;
        let asset = Asset {
            id,
            owner: leaf.owner,
            delegate: normalize_delegate(&leaf.owner, &leaf.delegate),
            owner_type: OwnerType::Single,
            frozen: false,
            supply: 1,
            compressed: true,
            burnt: false,
            tree_id: *tree_id,
            nonce: leaf.nonce,
            leaf: Some(leaf_hash),
            royalty_target_type: RoyaltyTargetType::Creators,
            royalty_target: None,
            royalty_amount: args.seller_fee_basis_points,
            chain_data_id: id,
            seq,
        };
        self.assets.push(asset);
        let MetadataArgs {
            name,
            symbol,
            uri,
            seller_fee_basis_points: _,
            primary_sale_happened,
            is_mutable,
            edition_nonce,
            collection,
            uses,
            creators,
        } = args;
        self.asset_data.push(
            AssetData {
                id,
                chain_data: ChainData {
                    name,
                    symbol,
                    edition_nonce,
                    primary_sale_happened,
                    token_standard: TokenStandard::NonFungible,
                    uses,
                },
                metadata_url: uri,
                chain_data_mutable: is_mutable,
                metadata_mutable: true,
            },
        );
        let ghost base = self.creators@;
        let mut i: usize = 0;
        while i < creators.len()
            invariant
                i <= creators@.len(),
                creators@ == spec_args.creators@,
                self.creators@.len() == base.len() + i,
                forall|j: int| 0 <= j < base.len() ==> self.creators@[j] == base[j],
                forall|j: int|
                    0 <= j < i ==> self.creators@[base.len() + j] == creator_row(
                        id,
                        creators@[j],
                        seq,
                    ),
                self.changelog@ == m.changelog,
                self.assets@ == m.assets.push(minted_asset(*leaf, leaf_hash, spec_args, *tree_id, seq)),
                self.asset_data@ == m.asset_data.push(minted_data(id, spec_args)),
                self.authorities@ == m.authorities,
                self.groupings@ == m.groupings,
                base == m.creators,
            decreases creators@.len() - i,
        {
            let c = creators[i];
            self.creators.push(
                AssetCreator {
                    asset_id: id,
                    creator: c.address,
                    share: c.share,
                    verified: c.verified,
                    seq,
                },
            );
            i = i + 1;
        }
        assert(self.creators@ =~= base + creator_rows(id, spec_args.creators@, seq));
        self.authorities.push(AssetAuthority { asset_id: id, authority: *update_authority, seq });
        match collection {
            Some(c) => {
                if c.verified {
                    self.groupings.push(
                        AssetGrouping {
                            asset_id: id,
                            group_key: GroupKey::Collection,
                            group_value: c.key,
                            seq,
                        },
                    );
                }
            },
            None => {},
        }
        proof {
            lemma_mint_keeps_wf(m, *leaf, leaf_hash, spec_args, *update_authority, *tree_id, seq);
        }
        Outcome::Applied(seq)
    }

    /// Moves the asset to the leaf's owner and clears its delegate.
    pub fn transfer(&mut self, leaf: &LeafSchema, seq: u64) -> (r: Result<Outcome, IngesterError>)
        requires
            old(self).wf(),
        ensures
            final(self).wf(),
            leaf.version != 1 ==> r == Err::<Outcome, IngesterError>(
                IngesterError::NotImplemented,
            ) && final(self)@ == old(self)@,
            leaf.version == 1 ==> updated_by_effect(
                old(self)@,
                final(self)@,
                r,
                leaf.id,
                seq,
                effect_of(InstructionKind::Transfer, *leaf),
            ),
    {
        if leaf.version != 1 {
            return Err(IngesterError::NotImplemented);
        }
        let e = RowEffect::Transfer { owner: leaf.owner, leaf: hash_leaf(leaf) };
        Ok(self.apply_row_effect(&leaf.id, seq, e))
    }

    /// Sets the asset's delegate from the leaf, normalized against its owner.
    pub fn delegate(&mut self, leaf: &LeafSchema, seq: u64) -> (r: Result<Outcome, IngesterError>)
        requires
            old(self).wf(),
        ensures
            final(self).wf(),
            leaf.version != 1 ==> r == Err::<Outcome, IngesterError>(
                IngesterError::NotImplemented,
            ) && final(self)@ == old(self)@,
            leaf.version == 1 ==> updated_by_effect(
                old(self)@,
                final(self)@,
                r,
                leaf.id,
                seq,
                effect_of(InstructionKind::Delegate, *leaf),
            ),
    {
        if leaf.version != 1 {
            return Err(IngesterError::NotImplemented);
        }
        let e = RowEffect::Delegate {
            owner: leaf.owner,
            delegate: normalize_delegate(&leaf.owner, &leaf.delegate),
            leaf: hash_leaf(leaf),
        };
        Ok(self.apply_row_effect(&leaf.id, seq, e))
    }

    /// Applies a burn, redeem or decompress instruction to the leaf's asset.
    fn retire(&mut self, kind: InstructionKind, leaf: &LeafSchema, seq: u64) -> (r: Result<
        Outcome,
        IngesterError,
    >)
        requires
            old(self).wf(),
            kind == InstructionKind::Burn || kind == InstructionKind::Redeem || kind
                == InstructionKind::Decompress,
        ensures
            final(self).wf(),
            leaf.version != 1 ==> r == Err::<Outcome, IngesterError>(
                IngesterError::NotImplemented,
            ) && final(self)@ == old(self)@,
            leaf.version == 1 ==> updated_by_effect(
                old(self)@,
                final(self)@,
                r,
                leaf.id,
                seq,
                effect_of(kind, *leaf),
            ),
    {
        if leaf.version != 1 {
            return Err(IngesterError::NotImplemented);
        }
        let e = match kind {
            InstructionKind::Burn => RowEffect::Burn,
            InstructionKind::Redeem => RowEffect::Redeem,
            _ => RowEffect::Decompress,
        };
        Ok(self.apply_row_effect(&leaf.id, seq, e))
    }

    /// Records a verified collection for the leaf's asset: the row takes the
    /// new leaf and the grouping row takes the collection.
    pub fn verify_collection(&mut self, leaf: &LeafSchema, collection: &Pubkey, seq: u64) -> (r: Result<
        Outcome,
        IngesterError,
    >)
        requires
            old(self).wf(),
        ensures
            final(self).wf(),
            leaf.version != 1 ==> r == Err::<Outcome, IngesterError>(
                IngesterError::NotImplemented,
            ) && final(self)@ == old(self)@,
            leaf.version == 1 && is_fresh(old(self)@.assets, leaf.id, seq) ==> r
                == Ok::<Outcome, IngesterError>(Outcome::Applied(seq)) && final(self)@ == (StoreModel {
                assets: fenced_update(
                    old(self)@.assets,
                    leaf.id,
                    seq,
                    effect_of(InstructionKind::VerifyCollection, *leaf),
                ),
                groupings: upsert_collection(old(self)@.groupings, leaf.id, *collection, seq),
                ..old(self)@
            }),
            leaf.version == 1 && !is_fresh(old(self)@.assets, leaf.id, seq) ==> r
                == Ok::<Outcome, IngesterError>(Outcome::Superseded(seq)) && final(self)@ == old(
                self,
            )@,
    {
        if leaf.version != 1 {
            return Err(IngesterError::NotImplemented);
        }
        let e = RowEffect::Verify { leaf: hash_leaf(leaf) };
        let out = self.apply_row_effect(&leaf.id, seq, e);
        match out {
            Outcome::Applied(_) => {
                proof {
                    let k = choose|k: int|
                        0 <= k < old(self)@.assets.len() && old(self)@.assets[k].id == leaf.id
                            && old(self)@.assets[k].seq < seq;
                    assert(has_asset(old(self)@.assets, leaf.id));
                    lemma_fenced_keeps_wf(old(self)@, leaf.id, seq, e);
                }
                self.upsert_collection_row(&leaf.id, collection, seq);
            },
            _ => {
                proof {
                    assert(self@.assets =~= old(self)@.assets);
                }
            },
        }
        Ok(out)
    }

    /// Applies a bundle whose tree update was sequenced as `seq` of `tree_id`.
    fn apply_bundle(&mut self, b: Bundle, tree_id: &Pubkey, seq: u64) -> (r: Result<
        Outcome,
        IngesterError,
    >)
        requires
            old(self).wf(),
        ensures
            final(self).wf(),
            match apply_error(b) {
                Some(e) => r == Err::<Outcome, IngesterError>(e) && final(self)@ == old(self)@,
                None => final(self)@ == apply_model(old(self)@, b, *tree_id, seq).0 && r == Ok::<
                    Outcome,
                    IngesterError,
                >(apply_model(old(self)@, b, *tree_id, seq).1),
            },
    {
        let Bundle { instruction, tree_update: _, leaf_update, payload } = b;
        let lu = match leaf_update {
            Some(lu) => lu,
            None => {
                return Err(IngesterError::ParsingError);
            },
        };
        match instruction {
            InstructionKind::Mint => match payload {
                Some(Payload::MintV1 { args, update_authority }) => {
                    self.mint_v1(&lu, args, &update_authority, tree_id, seq)
                },
                _ => Err(IngesterError::ParsingError),
            },
            InstructionKind::VerifyCollection | InstructionKind::SetAndVerifyCollection => {
                match payload {
                    Some(Payload::CollectionVerification { collection }) => {
                        self.verify_collection(&lu, &collection, seq)
                    },
                    _ => Err(IngesterError::ParsingError),
                }
            },
            InstructionKind::Transfer => {
                self.transfer(&lu, seq)
            },
            InstructionKind::Delegate => self.delegate(&lu, seq),
            _ => self.retire(instruction, &lu, seq),
        }
    }

    /// Processes one bundle as one atomic unit: its tree update is
    /// sequenced, then the bundle is applied under that sequence number.
    /// A duplicate `(tree_id, seq)` is discarded; on any error no table
    /// changes, the changelog row included.
    pub fn process_bundle(&mut self, b: Bundle, created_at: i64) -> (r: Result<
        Outcome,
        IngesterError,
    >)
        requires
            old(self).wf(),
        ensures
            final(self).wf(),
            final(self)@ == process_model(old(self)@, b, created_at).0,
            r == process_model(old(self)@, b, created_at).1,
    {
        let ghost m = self@;
        let (tree_id, seq) = match &b.tree_update {
            None => {
                return Err(IngesterError::ChangeLogEventMalformed);
            },
            Some(ev) => match self.save_changelog_event(ev, created_at) {
                Err(e) => {
                    return Err(e);
                },
                Ok(None) => {
                    return Ok(Outcome::Duplicate);
                },
                Ok(Some(s)) => (ev.id, s),
            },
        };
        match self.apply_bundle(b, &tree_id, seq) {
            Err(e) => {
                // The applier refused the bundle: undo the changelog append,
                // so that nothing of the bundle persists.
                let _ = self.changelog.pop();
                proof {
                    assert(self.changelog@ =~= m.changelog);
                }
                Err(e)
            },
            Ok(out) => Ok(out),
        }
    }
}

} // verus!
