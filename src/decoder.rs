use vstd::prelude::*;
use crate::bundle::{Bundle, ChangeLogEvent, InstructionKind, LeafSchema, Payload};
use crate::types::{keys_eq, IngesterError, Pubkey};

verus! {

/// One instruction of a transaction, with the tree update, leaf update and
/// payload that the envelope codec resolved for it.
#[derive(Debug)]
pub struct RawInstruction {
    pub program_id: Pubkey,
    pub data: Vec<u8>,
    pub tree_update: Option<ChangeLogEvent>,
    pub leaf_update: Option<LeafSchema>,
    pub payload: Option<Payload>,
}

/// The eight bytes that open the data of each instruction of the program.
pub open spec fn discriminator(kind: InstructionKind) -> Seq<u8> {
    match kind {
        InstructionKind::Mint => seq![145u8, 98u8, 192u8, 118u8, 184u8, 147u8, 118u8, 104u8],
        InstructionKind::Transfer => seq![163u8, 52u8, 200u8, 231u8, 140u8, 3u8, 69u8, 186u8],
        InstructionKind::Delegate => seq![90u8, 147u8, 75u8, 178u8, 85u8, 88u8, 4u8, 137u8],
        InstructionKind::Burn => seq![116u8, 110u8, 29u8, 56u8, 107u8, 219u8, 42u8, 93u8],
        InstructionKind::Redeem => seq![184u8, 12u8, 86u8, 149u8, 70u8, 196u8, 97u8, 225u8],
        InstructionKind::Decompress => seq![54u8, 85u8, 76u8, 70u8, 228u8, 250u8, 164u8, 81u8],
        InstructionKind::VerifyCollection => seq![56u8, 113u8, 101u8, 253u8, 79u8, 55u8, 122u8, 169u8],
        InstructionKind::SetAndVerifyCollection => seq![235u8, 242u8, 121u8, 216u8, 158u8, 234u8, 180u8, 234u8],
    }
}

pub open spec fn opens_with(data: Seq<u8>, kind: InstructionKind) -> bool {
    data.len() >= 8 && data.subrange(0, 8) == discriminator(kind)
}

/// The instruction whose discriminator opens `data`, if any.
pub open spec fn opcode_of(data: Seq<u8>) -> Option<InstructionKind> {
    if opens_with(data, InstructionKind::Mint) {
        Some(InstructionKind::Mint)
    } else if opens_with(data, InstructionKind::Transfer) {
        Some(InstructionKind::Transfer)
    } else if opens_with(data, InstructionKind::Delegate) {
        Some(InstructionKind::Delegate)
    } else if opens_with(data, InstructionKind::Burn) {
        Some(InstructionKind::Burn)
    } else if opens_with(data, InstructionKind::Redeem) {
        Some(InstructionKind::Redeem)
    } else if opens_with(data, InstructionKind::Decompress) {
        Some(InstructionKind::Decompress)
    } else if opens_with(data, InstructionKind::VerifyCollection) {
        Some(InstructionKind::VerifyCollection)
    } else if opens_with(data, InstructionKind::SetAndVerifyCollection) {
        Some(InstructionKind::SetAndVerifyCollection)
    } else {
        None
    }
}

/// The discriminators of the program's other instructions, which this
/// pipeline recognises but does not handle.
pub open spec fn unhandled_discriminator(i: int) -> Seq<u8> {
    if i == 0 {
        seq![153u8, 18u8, 178u8, 47u8, 197u8, 158u8, 86u8, 15u8]
    } else if i == 1 {
        seq![111u8, 76u8, 232u8, 50u8, 39u8, 175u8, 48u8, 242u8]
    } else if i == 2 {
        seq![82u8, 193u8, 176u8, 117u8, 176u8, 21u8, 115u8, 253u8]
    } else if i == 3 {
        seq![165u8, 83u8, 136u8, 142u8, 89u8, 202u8, 47u8, 220u8]
    } else if i == 4 {
        seq![52u8, 17u8, 96u8, 132u8, 71u8, 4u8, 85u8, 194u8]
    } else if i == 5 {
        seq![107u8, 178u8, 57u8, 39u8, 105u8, 115u8, 112u8, 152u8]
    } else if i == 6 {
        seq![250u8, 251u8, 42u8, 106u8, 41u8, 137u8, 186u8, 168u8]
    } else if i == 7 {
        seq![82u8, 104u8, 152u8, 6u8, 149u8, 111u8, 100u8, 13u8]
    } else if i == 8 {
        seq![18u8, 135u8, 238u8, 168u8, 246u8, 195u8, 61u8, 115u8]
    } else {
        seq![170u8, 182u8, 43u8, 239u8, 97u8, 78u8, 225u8, 186u8]
    }
}

pub const UNHANDLED_COUNT: usize = 10;

pub open spec fn is_unhandled(data: Seq<u8>) -> bool {
    exists|i: int|
        0 <= i < UNHANDLED_COUNT && data.len() >= 8 && data.subrange(0, 8)
            == unhandled_discriminator(i)
}

/// The result of decoding an instruction's opcode: its kind, not
/// implemented for another instruction of the program, else a parsing error.
pub open spec fn decoded(data: Seq<u8>) -> Result<InstructionKind, IngesterError> {
    match opcode_of(data) {
        Some(kind) => Ok(kind),
        None => if is_unhandled(data) {
            Err(IngesterError::NotImplemented)
        } else {
            Err(IngesterError::ParsingError)
        },
    }
}

/// What routing an instruction gives: `Ok(None)` for another program, a
/// decoding error for an opcode of the tracked program that it does not
/// handle, else its bundle.
pub open spec fn route_model(program: Pubkey, ix: RawInstruction) -> Result<Option<Bundle>, IngesterError> {
    if ix.program_id != program {
        Ok(None)
    } else {
        match decoded(ix.data@) {
            Err(e) => Err(e),
            Ok(kind) => Ok(
                Some(
                    Bundle {
                        instruction: kind,
                        tree_update: ix.tree_update,
                        leaf_update: ix.leaf_update,
                        payload: ix.payload,
                    },
                ),
            ),
        }
    }
}

fn discriminator_bytes(kind: InstructionKind) -> (r: [u8; 8])
    ensures
        r@ == discriminator(kind),
{
    let r: [u8; 8] = match kind {
        InstructionKind::Mint => [145u8, 98u8, 192u8, 118u8, 184u8, 147u8, 118u8, 104u8],
        InstructionKind::Transfer => [163u8, 52u8, 200u8, 231u8, 140u8, 3u8, 69u8, 186u8],
        InstructionKind::Delegate => [90u8, 147u8, 75u8, 178u8, 85u8, 88u8, 4u8, 137u8],
        InstructionKind::Burn => [116u8, 110u8, 29u8, 56u8, 107u8, 219u8, 42u8, 93u8],
        InstructionKind::Redeem => [184u8, 12u8, 86u8, 149u8, 70u8, 196u8, 97u8, 225u8],
        InstructionKind::Decompress => [54u8, 85u8, 76u8, 70u8, 228u8, 250u8, 164u8, 81u8],
        InstructionKind::VerifyCollection => [56u8, 113u8, 101u8, 253u8, 79u8, 55u8, 122u8, 169u8],
        InstructionKind::SetAndVerifyCollection => [235u8, 242u8, 121u8, 216u8, 158u8, 234u8, 180u8, 234u8],
    };
    assert(r@ =~= discriminator(kind));
    r
}

fn unhandled_bytes(i: usize) -> (r: [u8; 8])
    ensures
        r@ == unhandled_discriminator(i as int),
{
    let r: [u8; 8] = if i == 0 {
        [153u8, 18u8, 178u8, 47u8, 197u8, 158u8, 86u8, 15u8]
    } else if i == 1 {
        [111u8, 76u8, 232u8, 50u8, 39u8, 175u8, 48u8, 242u8]
    } else if i == 2 {
        [82u8, 193u8, 176u8, 117u8, 176u8, 21u8, 115u8, 253u8]
    } else if i == 3 {
        [165u8, 83u8, 136u8, 142u8, 89u8, 202u8, 47u8, 220u8]
    } else if i == 4 {
        [52u8, 17u8, 96u8, 132u8, 71u8, 4u8, 85u8, 194u8]
    } else if i == 5 {
        [107u8, 178u8, 57u8, 39u8, 105u8, 115u8, 112u8, 152u8]
    } else if i == 6 {
        [250u8, 251u8, 42u8, 106u8, 41u8, 137u8, 186u8, 168u8]
    } else if i == 7 {
        [82u8, 104u8, 152u8, 6u8, 149u8, 111u8, 100u8, 13u8]
    } else if i == 8 {
        [18u8, 135u8, 238u8, 168u8, 246u8, 195u8, 61u8, 115u8]
    } else {
        [170u8, 182u8, 43u8, 239u8, 97u8, 78u8, 225u8, 186u8]
    };
    assert(r@ =~= unhandled_discriminator(i as int));
    r
}

/// Whether `data` opens with the eight bytes `d`.
fn starts_with(data: &Vec<u8>, d: &[u8; 8]) -> (r: bool)
    ensures
        r == (data@.len() >= 8 && data@.subrange(0, 8) == d@),
{
    if data.len() < 8 {
        return false;
    }
    let mut i: usize = 0;
    while i < 8
        invariant
            i <= 8,
            data@.len() >= 8,
            d@.len() == 8,
            forall|j: int| 0 <= j < i ==> data@[j] == d@[j],
        decreases 8 - i,
    {
        if data[i] != d[i] {
            assert(data@.subrange(0, 8)[i as int] != d@[i as int]);
            return false;
        }
        i = i + 1;
    }
    assert(data@.subrange(0, 8) =~= d@);
    true
}

fn starts_with_discriminator(data: &Vec<u8>, kind: InstructionKind) -> (r: bool)
    ensures
        r == opens_with(data@, kind),
{
    let d = discriminator_bytes(kind);
    starts_with(data, &d)
}

/// Whether `data` opens with the discriminator of an instruction of the
/// program that this pipeline does not handle.
pub fn is_unhandled_opcode(data: &Vec<u8>) -> (r: bool)
    ensures
        r == is_unhandled(data@),
{
    let mut i: usize = 0;
    while i < UNHANDLED_COUNT
        invariant
            i <= UNHANDLED_COUNT,
            forall|j: int|
                0 <= j < i ==> !(data@.len() >= 8 && data@.subrange(0, 8) == unhandled_discriminator(j)),
        decreases UNHANDLED_COUNT - i,
    {
        let d = unhandled_bytes(i);
        if starts_with(data, &d) {
            return true;
        }
        i = i + 1;
    }
    false
}

/// Maps the opening bytes of an instruction's data to its kind.
pub fn decode_opcode(data: &Vec<u8>) -> (r: Option<InstructionKind>)
    ensures
        r == opcode_of(data@),
{
    if starts_with_discriminator(data, InstructionKind::Mint) {
        Some(InstructionKind::Mint)
    } else if starts_with_discriminator(data, InstructionKind::Transfer) {
        Some(InstructionKind::Transfer)
    } else if starts_with_discriminator(data, InstructionKind::Delegate) {
        Some(InstructionKind::Delegate)
    } else if starts_with_discriminator(data, InstructionKind::Burn) {
        Some(InstructionKind::Burn)
    } else if starts_with_discriminator(data, InstructionKind::Redeem) {
        Some(InstructionKind::Redeem)
    } else if starts_with_discriminator(data, InstructionKind::Decompress) {
        Some(InstructionKind::Decompress)
    } else if starts_with_discriminator(data, InstructionKind::VerifyCollection) {
        Some(InstructionKind::VerifyCollection)
    } else if starts_with_discriminator(data, InstructionKind::SetAndVerifyCollection) {
        Some(InstructionKind::SetAndVerifyCollection)
    } else {
        None
    }
}

/// Selects an instruction of the tracked `program` and decodes it into a
/// bundle; instructions of other programs are ignored.
pub fn route_instruction(program: &Pubkey, ix: RawInstruction) -> (r: Result<
    Option<Bundle>,
    IngesterError,
>)
    ensures
        r == route_model(*program, ix),
{
    if !keys_eq(&ix.program_id, program) {
        return Ok(None);
    }
    match decode_opcode(&ix.data) {
        None => if is_unhandled_opcode(&ix.data) {
            Err(IngesterError::NotImplemented)
        } else {
            Err(IngesterError::ParsingError)
        },
        Some(kind) => {
            let RawInstruction { program_id: _, data: _, tree_update, leaf_update, payload } = ix;
            Ok(Some(Bundle { instruction: kind, tree_update, leaf_update, payload }))
        },
    }
}

} // verus!
