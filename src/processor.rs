use vstd::prelude::*;

use crate::account::{AccountInfo, ExtraMetas, TransferContext};
use crate::address::Address;
use crate::error::ProgramError;
use crate::execute::{context_of, execute_outcome, process_execute};
use crate::initialize::{initialize_post, process_initialize_extra_account_meta_list};
use crate::instruction::{parse_instruction, InstructionModel, TransferHookInstruction};
use crate::meta::{metas_model, MetaModel};
use crate::update::{process_update_extra_account_meta_list, update_post};

verus! {

/// Decodes an instruction and serves it. An execute instruction runs the
/// checks and then the callback; the other two write the list of metas that
/// `E` declares, whatever list the instruction carries.
pub fn process_instruction<E: ExtraMetas, F: Fn(TransferContext<E>) -> Result<(), ProgramError>>(
    program_id: &Address,
    accounts: &mut Vec<AccountInfo>,
    instruction_data: &Vec<u8>,
    process_transfer: F,
) -> (r: Result<(), ProgramError>)
    requires
        forall|ctx: TransferContext<E>| process_transfer.requires((ctx,)),
    ensures
        match parse_instruction(instruction_data@) {
            None => r == Err::<(), ProgramError>(ProgramError::InvalidInstructionData)
                && final(accounts)@ == old(accounts)@,
            Some(InstructionModel::Execute(amount)) => {
                &&& final(accounts)@ == old(accounts)@
                &&& execute_outcome(program_id@, old(accounts)@, amount) is Err ==> r
                    == execute_outcome(program_id@, old(accounts)@, amount)
                &&& r is Ok ==> execute_outcome(program_id@, old(accounts)@, amount) is Ok && exists|
                    ctx: TransferContext<E>,
                |
                    context_of(ctx, *program_id, old(accounts)@, amount)
                        && process_transfer.ensures((ctx,), r)
            },
            Some(InstructionModel::Initialize(_)) => exists|ms: Seq<MetaModel>|
                initialize_post(program_id@, old(accounts)@, final(accounts)@, ms, r),
            Some(InstructionModel::Update(_)) => exists|ms: Seq<MetaModel>|
                update_post(program_id@, old(accounts)@, final(accounts)@, ms, r),
        },
{
    let instruction = match TransferHookInstruction::unpack(instruction_data) {
        Ok(i) => i,
        Err(e) => return Err(e),
    };
    match instruction {
        TransferHookInstruction::Execute { amount } => process_execute(
            program_id,
            accounts,
            amount,
            process_transfer,
        ),
        TransferHookInstruction::InitializeExtraAccountMetaList { .. } => {
            let user_extra_metas = E::to_extra_account_metas();
            let r = process_initialize_extra_account_meta_list(program_id, accounts, &user_extra_metas);
            proof {
                let ms = metas_model(user_extra_metas@);
                assert(initialize_post(program_id@, old(accounts)@, accounts@, ms, r));
            }
            r
        },
        TransferHookInstruction::UpdateExtraAccountMetaList { .. } => {
            let user_extra_metas = E::to_extra_account_metas();
            let r = process_update_extra_account_meta_list(program_id, accounts, &user_extra_metas);
            proof {
                let ms = metas_model(user_extra_metas@);
                assert(update_post(program_id@, old(accounts)@, accounts@, ms, r));
            }
            r
        },
    }
}

} // verus!
