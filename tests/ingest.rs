use das_ingest::bundle::{
    Bundle, ChangeLogEvent, Collection, Creator, InstructionKind, LeafSchema,
    MetadataArgs, PathNode, Payload,
};
use das_ingest::decoder::{decode_opcode, is_unhandled_opcode, route_instruction, RawInstruction};
use das_ingest::model::{GroupKey, Outcome, RowEffect};
use das_ingest::store::{normalize_delegate, Store};
use das_ingest::types::{keys_eq, IngesterError, Pubkey};

const TREE: Pubkey = [7u8; 32];
const ASSET: Pubkey = [1u8; 32];
const OWNER: Pubkey = [2u8; 32];
const OWNER2: Pubkey = [3u8; 32];
const DELEGATE: Pubkey = [4u8; 32];
const CREATOR: Pubkey = [5u8; 32];
const AUTHORITY: Pubkey = [6u8; 32];
const COLLECTION: Pubkey = [8u8; 32];
const PROGRAM: Pubkey = [9u8; 32];

fn event(seq: u64) -> ChangeLogEvent {
    ChangeLogEvent {
        id: TREE,
        path: vec![PathNode { index: 16384, node: [seq as u8; 32] }, PathNode { index: 8192, node: [0u8; 32] }],
        seq,
        index: 0,
    }
}

fn leaf(owner: Pubkey, delegate: Pubkey, seq: u64) -> LeafSchema {
    LeafSchema {
        version: 1,
        id: ASSET,
        owner,
        delegate,
        nonce: 0,
        data_hash: [seq as u8; 32],
        creator_hash: [0u8; 32],
    }
}

fn node(l: &LeafSchema) -> [u8; 32] {
    mpl_bubblegum::types::LeafSchema::V1 {
        id: l.id.into(),
        owner: l.owner.into(),
        delegate: l.delegate.into(),
        nonce: l.nonce,
        data_hash: l.data_hash,
        creator_hash: l.creator_hash,
    }
    .hash()
}

fn args(collection: Option<Collection>) -> MetadataArgs {
    MetadataArgs {
        name: "Asset".to_string(),
        symbol: "AST".to_string(),
        uri: "https://example.com/a.json".to_string(),
        seller_fee_basis_points: 500,
        primary_sale_happened: false,
        is_mutable: true,
        edition_nonce: None,
        collection,
        uses: None,
        creators: vec![Creator { address: CREATOR, verified: true, share: 100 }],
    }
}

fn mint(seq: u64) -> Bundle {
    Bundle {
        instruction: InstructionKind::Mint,
        tree_update: Some(event(seq)),
        leaf_update: Some(leaf(OWNER, OWNER, seq)),
        payload: Some(Payload::MintV1 { args: args(None), update_authority: AUTHORITY }),
    }
}

fn transfer(seq: u64, new_owner: Pubkey) -> Bundle {
    Bundle {
        instruction: InstructionKind::Transfer,
        tree_update: Some(event(seq)),
        leaf_update: Some(leaf(new_owner, new_owner, seq)),
        payload: None,
    }
}

fn delegate(seq: u64, owner: Pubkey, delegate: Pubkey) -> Bundle {
    Bundle {
        instruction: InstructionKind::Delegate,
        tree_update: Some(event(seq)),
        leaf_update: Some(leaf(owner, delegate, seq)),
        payload: None,
    }
}

fn plain(kind: InstructionKind, seq: u64) -> Bundle {
    Bundle {
        instruction: kind,
        tree_update: Some(event(seq)),
        leaf_update: Some(leaf(OWNER, OWNER, seq)),
        payload: None,
    }
}

fn minted_store() -> Store {
    let mut s = Store::new();
    assert_eq!(s.process_bundle(mint(1), 10), Ok(Outcome::Applied(1)));
    s
}

#[test]
fn mint_creates_asset_and_creator() {
    let s = minted_store();
    assert_eq!(s.assets().len(), 1);
    let a = s.assets()[0];
    assert_eq!(a.id, ASSET);
    assert_eq!(a.owner, OWNER);
    assert_eq!(a.delegate, None);
    assert_eq!(a.seq, 1);
    assert_eq!(a.supply, 1);
    assert!(a.compressed);
    assert!(!a.burnt);
    assert_eq!(a.tree_id, TREE);
    assert_eq!(a.royalty_amount, 500);
    assert_eq!(a.leaf, Some(node(&leaf(OWNER, OWNER, 1))));
    assert_ne!(a.leaf, Some([1u8; 32]));
    assert_ne!(a.leaf, Some([0u8; 32]));
    assert_ne!(a.leaf, Some(OWNER));
    assert_ne!(a.leaf, Some(ASSET));
    assert_eq!(s.creators().len(), 1);
    let c = s.creators()[0];
    assert_eq!((c.asset_id, c.creator, c.share, c.verified), (ASSET, CREATOR, 100, true));
    assert_eq!(s.authorities().len(), 1);
    assert_eq!(s.authorities()[0].authority, AUTHORITY);
    assert_eq!(s.asset_data().len(), 1);
    assert_eq!(s.asset_data()[0].metadata_url, "https://example.com/a.json");
    assert_eq!(s.asset_data()[0].chain_data.name, "Asset");
    assert!(s.groupings().is_empty());
    assert_eq!(s.changelog().len(), 1);
    assert_eq!(s.changelog()[0].seq, 1);
    assert_eq!(s.changelog()[0].tree_id, TREE);
    assert_eq!(s.changelog()[0].hash, [1u8; 32]);
    assert_eq!(s.changelog()[0].created_at, 10);
}

#[test]
fn same_mint_twice_is_a_noop() {
    let mut s = minted_store();
    assert_eq!(s.process_bundle(mint(1), 11), Ok(Outcome::Duplicate));
    assert_eq!(s.assets().len(), 1);
    assert_eq!(s.creators().len(), 1);
    assert_eq!(s.changelog().len(), 1);
}

#[test]
fn second_mint_with_new_seq_keeps_one_row() {
    let mut s = minted_store();
    assert_eq!(s.process_bundle(mint(2), 11), Ok(Outcome::Superseded(2)));
    assert_eq!(s.assets().len(), 1);
    assert_eq!(s.assets()[0].seq, 1);
    assert_eq!(s.asset_data().len(), 1);
    assert_eq!(s.creators().len(), 1);
    assert_eq!(s.changelog().len(), 2);
}

#[test]
fn transfer_after_mint() {
    let mut s = minted_store();
    assert_eq!(s.process_bundle(transfer(2, OWNER2), 11), Ok(Outcome::Applied(2)));
    let a = s.assets()[0];
    assert_eq!(a.owner, OWNER2);
    assert_eq!(a.delegate, None);
    assert_eq!(a.seq, 2);
    assert_eq!(a.leaf, Some(node(&leaf(OWNER2, OWNER2, 2))));
}

#[test]
fn late_transfer_after_delegate_is_superseded() {
    let mut s = minted_store();
    assert_eq!(s.process_bundle(delegate(3, OWNER2, DELEGATE), 11), Ok(Outcome::Applied(3)));
    assert_eq!(s.process_bundle(transfer(2, OWNER2), 12), Ok(Outcome::Superseded(2)));
    let a = s.assets()[0];
    assert_eq!(a.delegate, Some(DELEGATE));
    assert_eq!(a.owner, OWNER2);
    assert_eq!(a.seq, 3);
    assert_eq!(s.changelog().len(), 3);
}

#[test]
fn burn_then_stale_transfer() {
    let mut s = minted_store();
    assert_eq!(s.process_bundle(plain(InstructionKind::Burn, 4), 11), Ok(Outcome::Applied(4)));
    let a = s.assets()[0];
    assert!(a.burnt);
    assert_eq!(a.supply, 0);
    assert_eq!(a.seq, 4);
    assert_eq!(a.leaf, None);
    assert_eq!(s.process_bundle(transfer(3, OWNER2), 12), Ok(Outcome::Superseded(3)));
    let b = s.assets()[0];
    assert_eq!(b, a);
}

#[test]
fn stored_leaf_is_the_bubblegum_leaf_hash() {
    let mut s = minted_store();
    let l = leaf(OWNER, DELEGATE, 9);
    assert_eq!(s.delegate(&l, 9), Ok(Outcome::Applied(9)));
    let h = node(&l);
    assert_eq!(s.assets()[0].leaf, Some(h));
    assert_ne!(h, l.data_hash);
    assert_ne!(h, l.id);
    assert_ne!(h, l.delegate);
}

#[test]
fn row_effect_applies_only_to_older_rows() {
    let mut s = minted_store();
    let e = RowEffect::Verify { leaf: [42u8; 32] };
    assert_eq!(s.apply_row_effect(&ASSET, 1, e), Outcome::Superseded(1));
    assert_eq!(s.apply_row_effect(&OWNER, 5, e), Outcome::Superseded(5));
    assert_eq!(s.apply_row_effect(&ASSET, 5, e), Outcome::Applied(5));
    assert_eq!(s.assets()[0].leaf, Some([42u8; 32]));
    assert_eq!(s.assets()[0].seq, 5);
}

#[test]
fn insert_minted_uses_given_leaf_hash() {
    let mut s = Store::new();
    let l = leaf(OWNER, OWNER, 1);
    assert_eq!(s.insert_minted(&l, [77u8; 32], args(None), &AUTHORITY, &TREE, 1), Outcome::Applied(1));
    assert_eq!(s.assets()[0].leaf, Some([77u8; 32]));
    assert_eq!(s.insert_minted(&l, [78u8; 32], args(None), &AUTHORITY, &TREE, 2), Outcome::Superseded(2));
    assert_eq!(s.assets().len(), 1);
    assert_eq!(s.assets()[0].leaf, Some([77u8; 32]));
}

#[test]
fn delegate_to_owner_is_normalized() {
    let mut s = minted_store();
    assert_eq!(s.process_bundle(delegate(2, OWNER, DELEGATE), 11), Ok(Outcome::Applied(2)));
    assert_eq!(s.assets()[0].delegate, Some(DELEGATE));
    assert_eq!(s.process_bundle(delegate(3, OWNER, OWNER), 12), Ok(Outcome::Applied(3)));
    assert_eq!(s.assets()[0].delegate, None);
    assert_eq!(normalize_delegate(&OWNER, &OWNER), None);
    assert_eq!(normalize_delegate(&OWNER, &DELEGATE), Some(DELEGATE));
}

#[test]
fn bundle_applied_twice_equals_once() {
    let mut once = minted_store();
    once.process_bundle(delegate(2, OWNER, DELEGATE), 11).unwrap();
    let mut twice = minted_store();
    twice.process_bundle(delegate(2, OWNER, DELEGATE), 11).unwrap();
    assert_eq!(twice.process_bundle(delegate(2, OWNER, DELEGATE), 12), Ok(Outcome::Duplicate));
    assert_eq!(once.assets(), twice.assets());
    assert_eq!(once.changelog(), twice.changelog());
}

#[test]
fn two_orders_converge() {
    let mut only7 = minted_store();
    only7.process_bundle(transfer(7, OWNER2), 11).unwrap();
    let mut forward = minted_store();
    forward.process_bundle(delegate(5, OWNER, DELEGATE), 11).unwrap();
    forward.process_bundle(transfer(7, OWNER2), 12).unwrap();
    let mut backward = minted_store();
    backward.process_bundle(transfer(7, OWNER2), 11).unwrap();
    assert_eq!(backward.process_bundle(delegate(5, OWNER, DELEGATE), 12), Ok(Outcome::Superseded(5)));
    assert_eq!(forward.assets(), only7.assets());
    assert_eq!(backward.assets(), only7.assets());
}

#[test]
fn changelog_pair_accepted_once() {
    let mut s = Store::new();
    let ev = event(5);
    assert_eq!(s.save_changelog_event(&ev, 1), Ok(Some(5)));
    assert_eq!(s.save_changelog_event(&ev, 2), Ok(None));
    assert_eq!(s.changelog().len(), 1);
    assert!(s.has_changelog_entry(&TREE, 5));
    assert!(!s.has_changelog_entry(&TREE, 6));
    assert!(!s.has_changelog_entry(&ASSET, 5));
}

#[test]
fn applier_failure_rolls_back_changelog() {
    let mut s = minted_store();
    let mut b = transfer(2, OWNER2);
    if let Some(l) = b.leaf_update.as_mut() {
        l.version = 2;
    }
    assert_eq!(s.process_bundle(b, 11), Err(IngesterError::NotImplemented));
    assert_eq!(s.changelog().len(), 1);
    assert_eq!(s.assets()[0].owner, OWNER);
    assert_eq!(s.assets()[0].seq, 1);
}

#[test]
fn missing_or_empty_tree_update_is_malformed() {
    let mut s = minted_store();
    let mut b = transfer(2, OWNER2);
    b.tree_update = None;
    assert_eq!(s.process_bundle(b, 11), Err(IngesterError::ChangeLogEventMalformed));
    let mut c = transfer(2, OWNER2);
    if let Some(ev) = c.tree_update.as_mut() {
        ev.path.clear();
    }
    assert_eq!(s.process_bundle(c, 11), Err(IngesterError::ChangeLogEventMalformed));
    let empty = ChangeLogEvent { id: TREE, path: vec![], seq: 9, index: 0 };
    assert_eq!(s.save_changelog_event(&empty, 1), Err(IngesterError::ChangeLogEventMalformed));
    assert_eq!(s.changelog().len(), 1);
    assert_eq!(s.assets()[0].owner, OWNER);
}

#[test]
fn missing_leaf_or_payload_is_parsing_error() {
    let mut s = minted_store();
    let mut b = transfer(2, OWNER2);
    b.leaf_update = None;
    assert_eq!(s.process_bundle(b, 11), Err(IngesterError::ParsingError));
    let mut m = mint(3);
    m.payload = None;
    assert_eq!(s.process_bundle(m, 11), Err(IngesterError::ParsingError));
    let v = plain(InstructionKind::VerifyCollection, 4);
    assert_eq!(s.process_bundle(v, 11), Err(IngesterError::ParsingError));
    assert_eq!(s.changelog().len(), 1);
}

#[test]
fn event_for_absent_asset_is_dropped() {
    let mut s = Store::new();
    assert_eq!(s.process_bundle(transfer(2, OWNER2), 11), Ok(Outcome::Superseded(2)));
    assert!(s.assets().is_empty());
    assert_eq!(s.changelog().len(), 1);
}

#[test]
fn redeem_and_decompress() {
    let mut s = minted_store();
    assert_eq!(s.process_bundle(plain(InstructionKind::Redeem, 2), 11), Ok(Outcome::Applied(2)));
    assert_eq!(s.assets()[0].leaf, None);
    assert_eq!(s.assets()[0].seq, 2);
    assert!(s.assets()[0].compressed);
    assert_eq!(s.process_bundle(plain(InstructionKind::Decompress, 3), 12), Ok(Outcome::Applied(3)));
    assert!(!s.assets()[0].compressed);
    assert_eq!(s.assets()[0].seq, 3);
}

#[test]
fn collection_verification_sets_grouping() {
    let mut s = minted_store();
    let b = Bundle {
        instruction: InstructionKind::VerifyCollection,
        tree_update: Some(event(2)),
        leaf_update: Some(leaf(OWNER, OWNER, 2)),
        payload: Some(Payload::CollectionVerification { collection: COLLECTION }),
    };
    assert_eq!(s.process_bundle(b, 11), Ok(Outcome::Applied(2)));
    assert_eq!(s.groupings().len(), 1);
    let g = s.groupings()[0];
    assert_eq!((g.asset_id, g.group_key, g.group_value, g.seq), (ASSET, GroupKey::Collection, COLLECTION, 2));
    let c = Bundle {
        instruction: InstructionKind::SetAndVerifyCollection,
        tree_update: Some(event(3)),
        leaf_update: Some(leaf(OWNER, OWNER, 3)),
        payload: Some(Payload::CollectionVerification { collection: OWNER2 }),
    };
    assert_eq!(s.process_bundle(c, 12), Ok(Outcome::Applied(3)));
    assert_eq!(s.groupings().len(), 1);
    assert_eq!(s.groupings()[0].group_value, OWNER2);
    assert_eq!(s.groupings()[0].seq, 3);
    assert_eq!(s.assets()[0].leaf, Some(node(&leaf(OWNER, OWNER, 3))));
}

#[test]
fn mint_with_verified_collection_joins_group() {
    let mut s = Store::new();
    let b = Bundle {
        instruction: InstructionKind::Mint,
        tree_update: Some(event(1)),
        leaf_update: Some(leaf(OWNER, DELEGATE, 1)),
        payload: Some(Payload::MintV1 {
            args: args(Some(Collection { verified: true, key: COLLECTION })),
            update_authority: AUTHORITY,
        }),
    };
    assert_eq!(s.process_bundle(b, 10), Ok(Outcome::Applied(1)));
    assert_eq!(s.assets()[0].delegate, Some(DELEGATE));
    assert_eq!(s.groupings().len(), 1);
    assert_eq!(s.groupings()[0].group_value, COLLECTION);
    let mut t = Store::new();
    let u = Bundle {
        instruction: InstructionKind::Mint,
        tree_update: Some(event(1)),
        leaf_update: Some(leaf(OWNER, OWNER, 1)),
        payload: Some(Payload::MintV1 {
            args: args(Some(Collection { verified: false, key: COLLECTION })),
            update_authority: AUTHORITY,
        }),
    };
    assert_eq!(t.process_bundle(u, 10), Ok(Outcome::Applied(1)));
    assert!(t.groupings().is_empty());
}

#[test]
fn opcodes_decode() {
    let cases: Vec<([u8; 8], InstructionKind)> = vec![
        ([145, 98, 192, 118, 184, 147, 118, 104], InstructionKind::Mint),
        ([163, 52, 200, 231, 140, 3, 69, 186], InstructionKind::Transfer),
        ([90, 147, 75, 178, 85, 88, 4, 137], InstructionKind::Delegate),
        ([116, 110, 29, 56, 107, 219, 42, 93], InstructionKind::Burn),
        ([184, 12, 86, 149, 70, 196, 97, 225], InstructionKind::Redeem),
        ([54, 85, 76, 70, 228, 250, 164, 81], InstructionKind::Decompress),
        ([56, 113, 101, 253, 79, 55, 122, 169], InstructionKind::VerifyCollection),
        ([235, 242, 121, 216, 158, 234, 180, 234], InstructionKind::SetAndVerifyCollection),
    ];
    for (d, k) in cases {
        let mut data = d.to_vec();
        data.extend_from_slice(&[1, 2, 3]);
        assert_eq!(decode_opcode(&data), Some(k));
    }
    assert_eq!(decode_opcode(&vec![145, 98, 192, 118, 184, 147, 118]), None);
    assert_eq!(decode_opcode(&vec![0u8; 16]), None);
    assert_eq!(decode_opcode(&vec![]), None);
    assert!(is_unhandled_opcode(&vec![153, 18, 178, 47, 197, 158, 86, 15]));
    assert!(is_unhandled_opcode(&vec![18, 135, 238, 168, 246, 195, 61, 115, 1]));
    assert!(!is_unhandled_opcode(&vec![145, 98, 192, 118, 184, 147, 118, 104]));
    assert!(!is_unhandled_opcode(&vec![153, 18, 178]));
}

fn raw(program: Pubkey, data: Vec<u8>, b: Bundle) -> RawInstruction {
    RawInstruction {
        program_id: program,
        data,
        tree_update: b.tree_update,
        leaf_update: b.leaf_update,
        payload: b.payload,
    }
}

#[test]
fn routing_selects_tracked_program() {
    let other = raw(OWNER, vec![145, 98, 192, 118, 184, 147, 118, 104], mint(1));
    assert!(matches!(route_instruction(&PROGRAM, other), Ok(None)));
    let unknown = raw(PROGRAM, vec![1, 2, 3, 4, 5, 6, 7, 8], mint(1));
    assert!(matches!(route_instruction(&PROGRAM, unknown), Err(IngesterError::ParsingError)));
    let short = raw(PROGRAM, vec![145, 98, 192], mint(1));
    assert!(matches!(route_instruction(&PROGRAM, short), Err(IngesterError::ParsingError)));
    let create_tree = raw(PROGRAM, vec![165, 83, 136, 142, 89, 202, 47, 220, 0], mint(1));
    assert!(matches!(route_instruction(&PROGRAM, create_tree), Err(IngesterError::NotImplemented)));
    let update_metadata = raw(PROGRAM, vec![170, 182, 43, 239, 97, 78, 225, 186], mint(1));
    assert!(matches!(route_instruction(&PROGRAM, update_metadata), Err(IngesterError::NotImplemented)));
    let good = raw(PROGRAM, vec![163, 52, 200, 231, 140, 3, 69, 186], transfer(2, OWNER2));
    match route_instruction(&PROGRAM, good) {
        Ok(Some(b)) => {
            assert_eq!(b.instruction, InstructionKind::Transfer);
            assert_eq!(b.tree_update.map(|e| e.seq), Some(2));
        }
        _ => panic!("expected a bundle"),
    }
}

#[test]
fn transaction_processes_tracked_instructions_in_order() {
    let mut s = Store::new();
    let ixs = vec![
        raw(PROGRAM, vec![145, 98, 192, 118, 184, 147, 118, 104], mint(1)),
        raw(OWNER, vec![163, 52, 200, 231, 140, 3, 69, 186], transfer(5, OWNER)),
        raw(PROGRAM, vec![0, 0, 0, 0, 0, 0, 0, 0], transfer(6, OWNER)),
        raw(PROGRAM, vec![163, 52, 200, 231, 140, 3, 69, 186], transfer(2, OWNER2)),
    ];
    let results = s.process_transaction(&PROGRAM, ixs, 10);
    assert_eq!(
        results,
        vec![Ok(Outcome::Applied(1)), Err(IngesterError::ParsingError), Ok(Outcome::Applied(2))]
    );
    assert_eq!(s.assets()[0].owner, OWNER2);
    assert_eq!(s.changelog().len(), 2);
}

#[test]
fn keys_compare_bytewise() {
    assert!(keys_eq(&ASSET, &[1u8; 32]));
    let mut k = ASSET;
    k[31] = 0;
    assert!(!keys_eq(&ASSET, &k));
}

#[test]
fn handlers_reject_unknown_leaf_version() {
    let mut s = minted_store();
    let mut l = leaf(OWNER2, OWNER2, 2);
    l.version = 0;
    assert_eq!(s.transfer(&l, 2), Err(IngesterError::NotImplemented));
    assert_eq!(s.delegate(&l, 2), Err(IngesterError::NotImplemented));
    assert_eq!(s.verify_collection(&l, &COLLECTION, 2), Err(IngesterError::NotImplemented));
    assert_eq!(s.mint_v1(&l, args(None), &AUTHORITY, &TREE, 2), Err(IngesterError::NotImplemented));
    assert_eq!(s.assets()[0].owner, OWNER);
    assert_eq!(s.find_asset(&ASSET), Some(0));
    assert_eq!(s.find_asset(&OWNER), None);
}
