use vstd::prelude::*;
use crate::decoder::{route_instruction, route_model, RawInstruction};
use crate::model::{process_model, Outcome, StoreModel};
use crate::store::Store;
use crate::types::{IngesterError, Pubkey};

verus! {

/// The tables after one instruction of a transaction, and the result it
/// reports: none for an instruction of another program.
pub open spec fn instruction_model(m: StoreModel, program: Pubkey, ix: RawInstruction, created_at: i64) -> (
    StoreModel,
    Option<Result<Outcome, IngesterError>>,
) {
    match route_model(program, ix) {
        Ok(None) => (m, None),
        Err(e) => (m, Some(Err(e))),
        Ok(Some(b)) => (process_model(m, b, created_at).0, Some(process_model(m, b, created_at).1)),
    }
}

/// The tables after a transaction's instructions, taken in order, and the
/// results of those addressed to `program`.
pub open spec fn transaction_model(
    m: StoreModel,
    program: Pubkey,
    ixs: Seq<RawInstruction>,
    created_at: i64,
) -> (StoreModel, Seq<Result<Outcome, IngesterError>>)
    decreases ixs.len(),
{
    if ixs.len() == 0 {
        (m, Seq::empty())
    } else {
        let (m1, r1) = instruction_model(m, program, ixs[0], created_at);
        let (m2, rest) = transaction_model(m1, program, ixs.drop_first(), created_at);
        match r1 {
            Some(r) => (m2, seq![r] + rest),
            None => (m2, rest),
        }
    }
}

impl Store {
    /// Handles one transaction: each instruction of the tracked `program`
    /// is decoded and processed as its own atomic unit, in order. An
    /// instruction that fails to decode is reported and touches nothing;
    /// the others go on.
    pub fn process_transaction(
        &mut self,
        program: &Pubkey,
        instructions: Vec<RawInstruction>,
        created_at: i64,
    ) -> (results: Vec<Result<Outcome, IngesterError>>)
        requires
            old(self).wf(),
        ensures
            final(self).wf(),
            final(self)@ == transaction_model(old(self)@, *program, instructions@, created_at).0,
            results@ == transaction_model(old(self)@, *program, instructions@, created_at).1,
    {
        let ghost target = transaction_model(self@, *program, instructions@, created_at);
        let mut ixs = instructions;
        let mut results: Vec<Result<Outcome, IngesterError>> = Vec::new();
        while ixs.len() > 0
            invariant
                self.wf(),
                transaction_model(self@, *program, ixs@, created_at).0 == target.0,
                results@ + transaction_model(self@, *program, ixs@, created_at).1 == target.1,
            decreases ixs@.len(),
        {
            let ghost m = self@;
            let ghost rest = ixs@.drop_first();
            let ix = ixs.remove(0);
            assert(ixs@ == rest);
            let ghost step = instruction_model(m, *program, ix, created_at);
            let ghost tail = transaction_model(step.0, *program, rest, created_at);
            let ghost before = results@;
            match route_instruction(program, ix) {
                Ok(None) => {},
                Err(e) => {
                    results.push(Err(e));
                },
                Ok(Some(b)) => {
                    let r = self.process_bundle(b, created_at);
                    results.push(r);
                },
            }
            proof {
                assert(self@ == step.0);
                match step.1 {
                    Some(r) => {
                        assert(results@ == before.push(r));
                        assert(before + (seq![r] + tail.1) =~= results@ + tail.1);
                    },
                    None => {
                        assert(results@ == before);
                    },
                }
            }
        }
        assert(results@ + Seq::<Result<Outcome, IngesterError>>::empty() =~= results@);
        results
    }
}

} // verus!
