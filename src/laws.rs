use vstd::prelude::*;
use crate::bundle::{Bundle, InstructionKind, LeafSchema, Payload};
use crate::model::{
    apply_error, apply_model, changelog_unique, effect_of, effect_on, entry_of, fenced_update,
    has_asset, has_entry, is_fresh, lemma_fenced_keeps_wf, lemma_mint_keeps_wf,
    lemma_stale_update_is_noop, lemma_upsert_keeps_wf, lemma_with_changelog_keeps_wf, process_model,
    upsert_collection, well_formed_event, Asset, AssetGrouping, ChangelogEntry, Outcome, StoreModel,
};
use crate::leaf::leaf_node;
use crate::types::{IngesterError, Pubkey};

verus! {

proof fn lemma_push_fresh_entry(cl: Seq<ChangelogEntry>, e: ChangelogEntry)
    requires
        changelog_unique(cl),
        !has_entry(cl, e.tree_id, e.seq),
    ensures
        changelog_unique(cl.push(e)),
        has_entry(cl.push(e), e.tree_id, e.seq),
{
    let s = cl.push(e);
    assert(s[cl.len() as int] == e);
    assert forall|i: int, j: int| 0 <= i < s.len() && 0 <= j < s.len() && i != j implies !(
    s[i].tree_id == s[j].tree_id && s[i].seq == s[j].seq) by {
        if i < cl.len() && j < cl.len() {
            assert(s[i] == cl[i] && s[j] == cl[j]);
        } else if i == cl.len() {
            assert(s[j] == cl[j]);
        } else {
            assert(s[i] == cl[i]);
        }
    }
}

/// What applying a bundle leaves of the changelog: it is never touched.
proof fn lemma_apply_keeps_changelog(m: StoreModel, b: Bundle, tree_id: Pubkey, seq: u64)
    requires
        m.wf(),
    ensures
        apply_model(m, b, tree_id, seq).0.changelog == m.changelog,
        apply_model(m, b, tree_id, seq).0.wf(),
{
    match b.leaf_update {
        None => {},
        Some(lu) => {
            let id = lu.id;
            match b.instruction {
                InstructionKind::Mint => {
                    match b.payload {
                        Some(Payload::MintV1 { args, update_authority }) => {
                            if !has_asset(m.assets, id) {
                                lemma_mint_keeps_wf(m, lu, leaf_node(lu), args, update_authority, tree_id, seq);
                            }
                        },
                        _ => {},
                    }
                },
                InstructionKind::VerifyCollection | InstructionKind::SetAndVerifyCollection => {
                    let e = effect_of(b.instruction, lu);
                    lemma_fenced_keeps_wf(m, id, seq, e);
                    if is_fresh(m.assets, id, seq) {
                        let k = choose|k: int| 0 <= k < m.assets.len() && m.assets[k].id == id && m.assets[k].seq < seq;
                        assert(has_asset(m.assets, id));
                        let mf = StoreModel { assets: fenced_update(m.assets, id, seq, e), ..m };
                        lemma_upsert_keeps_wf(mf, id, collection_of(b), seq);
                    }
                },
                _ => {
                    lemma_fenced_keeps_wf(m, id, seq, effect_of(b.instruction, lu));
                },
            }
        },
    }
}

/// Processing a bundle keeps the tables well formed, and the changelog
/// either stays as it was or gains exactly the bundle's entry.
pub proof fn lemma_process_keeps_wf(m: StoreModel, b: Bundle, created_at: i64)
    requires
        m.wf(),
    ensures
        process_model(m, b, created_at).0.wf(),
        process_model(m, b, created_at).0.changelog == m.changelog || (b.tree_update is Some
            && process_model(m, b, created_at).0.changelog == m.changelog.push(
            entry_of(b.tree_update->Some_0, created_at),
        )),
{
    match b.tree_update {
        None => {},
        Some(ev) => {
            if ev.path@.len() > 0 && !has_entry(m.changelog, ev.id, ev.seq) && apply_error(b) is None {
                let e = entry_of(ev, created_at);
                lemma_push_fresh_entry(m.changelog, e);
                lemma_with_changelog_keeps_wf(m, m.changelog.push(e));
                let m1 = m.with_changelog(m.changelog.push(e));
                lemma_apply_keeps_changelog(m1, b, ev.id, ev.seq);
            }
        },
    }
}

/// Idempotence: processing the same bundle a second time, at any time,
/// changes nothing, and a bundle accepted the first time is reported as a
/// duplicate the second time.
pub proof fn lemma_idempotent(m: StoreModel, b: Bundle, t1: i64, t2: i64)
    requires
        m.wf(),
    ensures
        process_model(process_model(m, b, t1).0, b, t2).0 == process_model(m, b, t1).0,
        process_model(m, b, t1).1 is Ok ==> process_model(process_model(m, b, t1).0, b, t2).1
            == Ok::<Outcome, IngesterError>(Outcome::Duplicate),
{
    let m1 = process_model(m, b, t1).0;
    lemma_process_keeps_wf(m, b, t1);
    match b.tree_update {
        None => {},
        Some(ev) => {
            if ev.path@.len() > 0 && !has_entry(m.changelog, ev.id, ev.seq) && apply_error(b) is None {
                let e = entry_of(ev, t1);
                lemma_push_fresh_entry(m.changelog, e);
                assert(has_entry(m1.changelog, ev.id, ev.seq));
            }
        },
    }
}

/// Mint uniqueness: however two bundles (two mints of one asset among
/// them) are processed, no two asset rows share an id, and the asset keeps
/// at most one data, authority and grouping row.
pub proof fn lemma_mint_unique(m: StoreModel, b1: Bundle, b2: Bundle, t1: i64, t2: i64, id: Pubkey)
    requires
        m.wf(),
    ensures
        process_model(process_model(m, b1, t1).0, b2, t2).0.wf(),
        ({
            let assets = process_model(process_model(m, b1, t1).0, b2, t2).0.assets;
            forall|i: int, j: int|
                0 <= i < assets.len() && 0 <= j < assets.len() && assets[i].id == id
                    && assets[j].id == id ==> i == j
        }),
{
    lemma_process_keeps_wf(m, b1, t1);
    lemma_process_keeps_wf(process_model(m, b1, t1).0, b2, t2);
}

/// Changelog uniqueness: once a bundle with tree update `(tree_id, seq)`
/// was taken, processing another bundle with the same `(tree_id, seq)`
/// leaves exactly one changelog row with that key.
pub proof fn lemma_changelog_unique(m: StoreModel, b1: Bundle, b2: Bundle, t1: i64, t2: i64)
    requires
        m.wf(),
        process_model(m, b1, t1).1 is Ok,
        b1.tree_update is Some,
        b2.tree_update is Some,
        b1.tree_update->Some_0.id == b2.tree_update->Some_0.id,
        b1.tree_update->Some_0.seq == b2.tree_update->Some_0.seq,
    ensures
        ({
            let cl = process_model(process_model(m, b1, t1).0, b2, t2).0.changelog;
            let ev = b1.tree_update->Some_0;
            exists|i: int|
                0 <= i < cl.len() && cl[i].tree_id == ev.id && cl[i].seq == ev.seq && forall|
                    j: int,
                |
                    0 <= j < cl.len() && cl[j].tree_id == ev.id && cl[j].seq == ev.seq ==> j == i
        }),
{
    let ev = b1.tree_update->Some_0;
    let m1 = process_model(m, b1, t1).0;
    lemma_process_keeps_wf(m, b1, t1);
    if !has_entry(m.changelog, ev.id, ev.seq) {
        lemma_push_fresh_entry(m.changelog, entry_of(ev, t1));
        lemma_with_changelog_keeps_wf(m, m.changelog.push(entry_of(ev, t1)));
        let m1b = m.with_changelog(m.changelog.push(entry_of(ev, t1)));
        lemma_apply_keeps_changelog(m1b, b1, ev.id, ev.seq);
    }
    assert(has_entry(m1.changelog, ev.id, ev.seq));
    let m2 = process_model(m1, b2, t2).0;
    lemma_process_keeps_wf(m1, b2, t2);
    assert(m2.changelog == m1.changelog);
    let cl = m2.changelog;
    let i = choose|i: int| 0 <= i < cl.len() && cl[i].tree_id == ev.id && cl[i].seq == ev.seq;
    assert forall|j: int|
        0 <= j < cl.len() && cl[j].tree_id == ev.id && cl[j].seq == ev.seq implies j == i by {
    }
}

/// Delegate normalization: a delegate instruction that names the owner as
/// delegate, once applied, leaves the asset without a delegate.
pub proof fn lemma_delegate_to_owner_is_cleared(m: StoreModel, b: Bundle, created_at: i64)
    requires
        m.wf(),
        b.instruction == InstructionKind::Delegate,
        b.leaf_update is Some,
        b.leaf_update->Some_0.owner == b.leaf_update->Some_0.delegate,
        process_model(m, b, created_at).1 is Ok,
        process_model(m, b, created_at).1->Ok_0 is Applied,
    ensures
        ({
            let assets = process_model(m, b, created_at).0.assets;
            let id = b.leaf_update->Some_0.id;
            has_asset(assets, id) && forall|i: int|
                0 <= i < assets.len() && assets[i].id == id ==> assets[i].delegate is None
        }),
{
    let lu = b.leaf_update->Some_0;
    let id = lu.id;
    let ev = b.tree_update->Some_0;
    let a0 = m.assets;
    assert(is_fresh(a0, id, ev.seq));
    let k = choose|k: int| 0 <= k < a0.len() && a0[k].id == id && a0[k].seq < ev.seq;
    let assets = process_model(m, b, created_at).0.assets;
    assert(assets == fenced_update(a0, id, ev.seq, effect_of(b.instruction, lu)));
    assert(assets[k].id == id);
    assert forall|i: int| 0 <= i < assets.len() && assets[i].id == id implies assets[i].delegate is None by {
        assert(a0[i].id == id);
        assert(i == k);
    }
}

/// Atomicity: a bundle that fails, in the sequencer or in the applier after
/// the sequencer took it, leaves every table, the changelog included, as it was.
pub proof fn lemma_failure_leaves_no_trace(m: StoreModel, b: Bundle, created_at: i64)
    requires
        process_model(m, b, created_at).1 is Err,
    ensures
        process_model(m, b, created_at).0 == m,
{
}

/// Every column that an `earlier` instruction writes on an asset's rows is
/// written again by a `later` one (mints excluded).
pub open spec fn covers(later: InstructionKind, earlier: InstructionKind) -> bool {
    match earlier {
        InstructionKind::Mint => false,
        InstructionKind::Transfer | InstructionKind::Delegate => later is Transfer || later is Delegate,
        InstructionKind::Burn => later is Burn,
        InstructionKind::Redeem => !(later is Mint) && !(later is Decompress),
        InstructionKind::Decompress => later is Decompress,
        InstructionKind::VerifyCollection | InstructionKind::SetAndVerifyCollection => later is VerifyCollection
            || later is SetAndVerifyCollection,
    }
}

pub open spec fn is_verify(k: InstructionKind) -> bool {
    k is VerifyCollection || k is SetAndVerifyCollection
}

pub open spec fn collection_of(b: Bundle) -> Pubkey {
    match b.payload {
        Some(Payload::CollectionVerification { collection }) => collection,
        _ => b.leaf_update->Some_0.id,
    }
}

/// The bundle passes the sequencer and the applier's checks on `m`.
pub open spec fn is_taken(m: StoreModel, b: Bundle) -> bool {
    &&& well_formed_event(b)
    &&& !has_entry(m.changelog, b.tree_update->Some_0.id, b.tree_update->Some_0.seq)
    &&& apply_error(b) is None
}

/// The tables after a taken non-mint bundle, in closed form.
proof fn lemma_non_mint_effect(m: StoreModel, b: Bundle, created_at: i64)
    requires
        is_taken(m, b),
        !(b.instruction is Mint),
    ensures
        ({
            let r = process_model(m, b, created_at).0;
            let lu = b.leaf_update->Some_0;
            let ev = b.tree_update->Some_0;
            &&& r.assets == fenced_update(m.assets, lu.id, ev.seq, effect_of(b.instruction, lu))
            &&& r.groupings == (if is_verify(b.instruction) && is_fresh(m.assets, lu.id, ev.seq) {
                upsert_collection(m.groupings, lu.id, collection_of(b), ev.seq)
            } else {
                m.groupings
            })
            &&& r.asset_data == m.asset_data
            &&& r.creators == m.creators
            &&& r.authorities == m.authorities
        }),
{
    let lu = b.leaf_update->Some_0;
    let ev = b.tree_update->Some_0;
    if !is_fresh(m.assets, lu.id, ev.seq) {
        lemma_stale_update_is_noop(m.assets, lu.id, ev.seq, effect_of(b.instruction, lu));
    }
}

/// A bundle that is not taken leaves the asset tables as they were.
proof fn lemma_not_taken_keeps_tables(m: StoreModel, b: Bundle, created_at: i64)
    requires
        !is_taken(m, b),
    ensures
        process_model(m, b, created_at).0.asset_tables_eq(m),
{
}

proof fn lemma_covered_row(a: Asset, k5: InstructionKind, k7: InstructionKind, l5: LeafSchema, l7: LeafSchema, s5: u64, s7: u64)
    requires
        covers(k7, k5),
    ensures
        effect_on(effect_on(a, effect_of(k5, l5), s5), effect_of(k7, l7), s7)
            == effect_on(a, effect_of(k7, l7), s7),
{
}

proof fn lemma_fenced_compose(
    assets: Seq<Asset>,
    id: Pubkey,
    k5: InstructionKind,
    k7: InstructionKind,
    l5: LeafSchema,
    l7: LeafSchema,
    s5: u64,
    s7: u64,
)
    requires
        covers(k7, k5),
        s5 < s7,
    ensures
        fenced_update(fenced_update(assets, id, s5, effect_of(k5, l5)), id, s7, effect_of(k7, l7))
            == fenced_update(assets, id, s7, effect_of(k7, l7)),
{
    let a5 = fenced_update(assets, id, s5, effect_of(k5, l5));
    let lhs = fenced_update(a5, id, s7, effect_of(k7, l7));
    let rhs = fenced_update(assets, id, s7, effect_of(k7, l7));
    assert forall|j: int| 0 <= j < assets.len() implies lhs[j] == rhs[j] by {
        lemma_covered_row(assets[j], k5, k7, l5, l7, s5, s7);
    }
    assert(lhs =~= rhs);
}

proof fn lemma_upsert_compose(g: Seq<AssetGrouping>, id: Pubkey, k5: Pubkey, s5: u64, k7: Pubkey, s7: u64)
    ensures
        upsert_collection(upsert_collection(g, id, k5, s5), id, k7, s7) == upsert_collection(g, id, k7, s7),
{
    let g5 = upsert_collection(g, id, k5, s5);
    let lhs = upsert_collection(g5, id, k7, s7);
    let rhs = upsert_collection(g, id, k7, s7);
    if exists|i: int| 0 <= i < g.len() && g[i].asset_id == id {
        let i = choose|i: int| 0 <= i < g.len() && g[i].asset_id == id;
        assert(g5[i].asset_id == id);
        assert(lhs =~= rhs);
    } else {
        assert(g5[g.len() as int].asset_id == id);
        assert forall|j: int| 0 <= j < g.len() implies g[j].asset_id != id by {}
        assert(lhs =~= rhs);
    }
}

/// After a taken bundle of sequence `s7` on `id`, no row of `id` is older
/// than `s7`.
proof fn lemma_no_row_older_after(m: StoreModel, b: Bundle, created_at: i64)
    requires
        is_taken(m, b),
        !(b.instruction is Mint),
    ensures
        ({
            let r = process_model(m, b, created_at).0;
            let id = b.leaf_update->Some_0.id;
            forall|i: int| 0 <= i < r.assets.len() && r.assets[i].id == id ==> r.assets[i].seq >= b.tree_update->Some_0.seq
        }),
{
    lemma_non_mint_effect(m, b, created_at);
}

/// Order independence: two bundles on one asset with sequence numbers
/// `s5 < s7`, where the later one is taken and rewrites every column the
/// earlier one writes, leave the asset tables as the later one alone does,
/// whichever arrives first.
pub proof fn lemma_order_independent(m: StoreModel, b5: Bundle, b7: Bundle, t5: i64, t7: i64)
    requires
        m.wf(),
        b5.leaf_update is Some,
        b7.leaf_update is Some,
        b5.leaf_update->Some_0.id == b7.leaf_update->Some_0.id,
        b5.tree_update is Some,
        b7.tree_update is Some,
        b5.tree_update->Some_0.seq < b7.tree_update->Some_0.seq,
        covers(b7.instruction, b5.instruction),
        is_taken(m, b7),
    ensures
        process_model(process_model(m, b5, t5).0, b7, t7).0.asset_tables_eq(process_model(m, b7, t7).0),
        process_model(process_model(m, b7, t7).0, b5, t5).0.asset_tables_eq(process_model(m, b7, t7).0),
{
    let l5 = b5.leaf_update->Some_0;
    let l7 = b7.leaf_update->Some_0;
    let id = l5.id;
    let ev5 = b5.tree_update->Some_0;
    let ev7 = b7.tree_update->Some_0;
    let s5 = ev5.seq;
    let s7 = ev7.seq;
    let m7 = process_model(m, b7, t7).0;
    lemma_non_mint_effect(m, b7, t7);
    // b7 first, then b5: the row is already at s7 or beyond, so b5 changes nothing.
    lemma_no_row_older_after(m, b7, t7);
    if is_taken(m7, b5) {
        lemma_non_mint_effect(m7, b5, t5);
        assert(!is_fresh(m7.assets, id, s5));
        lemma_stale_update_is_noop(m7.assets, id, s5, effect_of(b5.instruction, l5));
    } else {
        lemma_not_taken_keeps_tables(m7, b5, t5);
    }
    // b5 first, then b7.
    let m5 = process_model(m, b5, t5).0;
    lemma_process_keeps_wf(m, b5, t5);
    assert(!has_entry(m5.changelog, ev7.id, s7)) by {
        if has_entry(m5.changelog, ev7.id, s7) {
            let i = choose|i: int| 0 <= i < m5.changelog.len() && m5.changelog[i].tree_id == ev7.id
                && m5.changelog[i].seq == s7;
            if i < m.changelog.len() {
                assert(m5.changelog[i] == m.changelog[i]);
            }
        }
    }
    assert(is_taken(m5, b7));
    lemma_non_mint_effect(m5, b7, t7);
    if is_taken(m, b5) && is_fresh(m.assets, id, s5) {
        lemma_non_mint_effect(m, b5, t5);
        lemma_fenced_compose(m.assets, id, b5.instruction, b7.instruction, l5, l7, s5, s7);
        let k = choose|k: int| 0 <= k < m.assets.len() && m.assets[k].id == id && m.assets[k].seq < s5;
        assert(m5.assets[k].id == id && m5.assets[k].seq < s7);
        assert(is_fresh(m5.assets, id, s7));
        assert(is_fresh(m.assets, id, s7));
        if is_verify(b5.instruction) {
            lemma_upsert_compose(m.groupings, id, collection_of(b5), s5, collection_of(b7), s7);
        }
    } else {
        if is_taken(m, b5) {
            lemma_non_mint_effect(m, b5, t5);
            lemma_stale_update_is_noop(m.assets, id, s5, effect_of(b5.instruction, l5));
        } else {
            lemma_not_taken_keeps_tables(m, b5, t5);
        }
        assert(m5.asset_tables_eq(m));
    }
}

} // verus!
