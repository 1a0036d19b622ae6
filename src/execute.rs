use vstd::prelude::*;

use crate::account::{copy_account, same_account, AccountInfo, ExtraMetas, TransferContext};
use crate::address::Address;
use crate::error::ProgramError;
use crate::instruction::{execute_bytes, pack_execute};
use crate::pda::{is_record_address, record_address};
use crate::resolve::{account_matches, check_account_infos, check_from, check_outcome, FIXED_ACCOUNTS};
use crate::codec::{lemma_record_round_trip, record_bytes, record_wf};
use crate::initialize::initialize_post;
use crate::meta::MetaModel;
use crate::token::{read_transferring_flag, transferring_flag_of};

verus! {

/// Whether a token account is in the middle of a transfer, as its
/// transfer-hook extension says.
pub open spec fn transferring_check(a: AccountInfo) -> Result<(), ProgramError> {
    transferring_result(transferring_flag_of(a.data@))
}

/// What a read transfer flag decides: data that is no token account is
/// invalid; a missing or clear flag means the hook was called outside a
/// transfer.
pub open spec fn transferring_result(flag: Option<Option<bool>>) -> Result<(), ProgramError> {
    match flag {
        None => Err(ProgramError::InvalidAccountData),
        Some(Some(true)) => Ok(()),
        Some(_) => Err(ProgramError::ProgramCalledOutsideOfTransfer),
    }
}

/// Whether the validation record supplied is the one derived from the mint.
pub open spec fn is_derived_record(program_id: Seq<u8>, mint: AccountInfo, record: AccountInfo) -> bool {
    record_address(mint.key@, program_id) matches Some((a, _)) && a == record.key@
}

/// The checks of an execute instruction, in order: the fixed accounts are
/// there, both token accounts are mid-transfer, the record is the derived
/// one, and a non-empty record matches the extra accounts supplied.
pub open spec fn execute_outcome(program_id: Seq<u8>, accounts: Seq<AccountInfo>, amount: u64) -> Result<(), ProgramError> {
    if accounts.len() < FIXED_ACCOUNTS {
        Err(ProgramError::NotEnoughAccountKeys)
    } else if transferring_check(accounts[0]) is Err {
        transferring_check(accounts[0])
    } else if transferring_check(accounts[2]) is Err {
        transferring_check(accounts[2])
    } else if !is_derived_record(program_id, accounts[1], accounts[4]) {
        Err(ProgramError::InvalidSeeds)
    } else if accounts[4].data@.len() == 0 {
        Ok(())
    } else {
        check_outcome(accounts, execute_bytes(amount), accounts[4].data@)
    }
}

/// Whether `ctx` is the context of a transfer of `amount` with these
/// accounts: the program, views of the five fixed accounts in order, and the
/// amount.
pub open spec fn context_of<E>(ctx: TransferContext<E>, program_id: Address, accounts: Seq<AccountInfo>, amount: u64) -> bool {
    &&& ctx.program_id == program_id
    &&& same_account(ctx.source_account, accounts[0])
    &&& same_account(ctx.mint, accounts[1])
    &&& same_account(ctx.destination_account, accounts[2])
    &&& same_account(ctx.authority, accounts[3])
    &&& same_account(ctx.extra_account_metas, accounts[4])
    &&& ctx.amount == amount
}

/// Refuses a token account that is not in the middle of a transfer.
pub fn check_token_account_is_transferring(account_info: &AccountInfo) -> (r: Result<(), ProgramError>)
    ensures
        r == transferring_check(*account_info),
{
    transferring_decision(read_transferring_flag(&account_info.data))
}

/// Decides on a token account from its transfer flag, as read.
pub fn transferring_decision(flag: Option<Option<bool>>) -> (r: Result<(), ProgramError>)
    ensures
        r == transferring_result(flag),
{
    match flag {
        None => Err(ProgramError::InvalidAccountData),
        Some(Some(true)) => Ok(()),
        Some(_) => Err(ProgramError::ProgramCalledOutsideOfTransfer),
    }
}

/// Runs the checks of an execute instruction.
pub fn validate_execute(program_id: &Address, accounts: &Vec<AccountInfo>, amount: u64) -> (r: Result<(), ProgramError>)
    ensures
        r == execute_outcome(program_id@, accounts@, amount),
{
    if accounts.len() < FIXED_ACCOUNTS {
        return Err(ProgramError::NotEnoughAccountKeys);
    }
    if let Err(e) = check_token_account_is_transferring(&accounts[0]) {
        return Err(e);
    }
    if let Err(e) = check_token_account_is_transferring(&accounts[2]) {
        return Err(e);
    }
    if !is_record_address(&accounts[4].key, &accounts[1].key, program_id) {
        return Err(ProgramError::InvalidSeeds);
    }
    if accounts[4].data.len() == 0 {
        return Ok(());
    }
    let ix = pack_execute(amount);
    check_account_infos(accounts, &ix, &accounts[4].data)
}

/// Builds the context of a transfer from the accounts and the extra
/// accounts taken by the binding, calls the callback with it, and returns
/// the callback's result.
pub fn run_transfer_callback<E: ExtraMetas, F: Fn(TransferContext<E>) -> Result<(), ProgramError>>(
    program_id: &Address,
    accounts: &Vec<AccountInfo>,
    amount: u64,
    extra_metas: E,
    process_transfer: F,
) -> (r: Result<(), ProgramError>)
    requires
        accounts@.len() >= FIXED_ACCOUNTS,
        forall|ctx: TransferContext<E>| process_transfer.requires((ctx,)),
    ensures
        exists|ctx: TransferContext<E>|
            context_of(ctx, *program_id, accounts@, amount) && ctx.extra_metas == extra_metas
                && process_transfer.ensures((ctx,), r),
{
    let ghost taken = extra_metas;
    let ctx = TransferContext {
        program_id: *program_id,
        source_account: copy_account(&accounts[0]),
        mint: copy_account(&accounts[1]),
        destination_account: copy_account(&accounts[2]),
        authority: copy_account(&accounts[3]),
        extra_account_metas: copy_account(&accounts[4]),
        amount,
        extra_metas,
    };
    let ghost g = ctx;
    let r = process_transfer(ctx);
    proof {
        assert(context_of(g, *program_id, accounts@, amount) && g.extra_metas == taken);
    }
    r
}

/// Serves an execute instruction: checks it, takes the declared extra
/// accounts from the account list, and hands the context to the consuming
/// program's callback, whose result it returns.
pub fn process_execute<E: ExtraMetas, F: Fn(TransferContext<E>) -> Result<(), ProgramError>>(
    program_id: &Address,
    accounts: &Vec<AccountInfo>,
    amount: u64,
    process_transfer: F,
) -> (r: Result<(), ProgramError>)
    requires
        forall|ctx: TransferContext<E>| process_transfer.requires((ctx,)),
    ensures
        execute_outcome(program_id@, accounts@, amount) is Err ==> r == execute_outcome(
            program_id@,
            accounts@,
            amount,
        ),
        r is Ok ==> execute_outcome(program_id@, accounts@, amount) is Ok && exists|
            ctx: TransferContext<E>,
        | context_of(ctx, *program_id, accounts@, amount) && process_transfer.ensures((ctx,), r),
{
    if let Err(e) = validate_execute(program_id, accounts, amount) {
        return Err(e);
    }
    let extra_metas = match E::from_accounts(accounts) {
        Ok(x) => x,
        Err(e) => return Err(e),
    };
    run_transfer_callback(program_id, accounts, amount, extra_metas, process_transfer)
}

/// An execute instruction never succeeds unless both token accounts are
/// mid-transfer, and a source that is not is refused with the reentrancy
/// error.
pub proof fn lemma_execute_needs_transfer(program_id: Seq<u8>, accounts: Seq<AccountInfo>, amount: u64)
    requires
        accounts.len() >= FIXED_ACCOUNTS,
    ensures
        (transferring_flag_of(accounts[0].data@) == Some(Some(false)) || transferring_flag_of(
            accounts[2].data@,
        ) == Some(Some(false))) ==> execute_outcome(program_id, accounts, amount) is Err,
        (transferring_flag_of(accounts[0].data@) == Some(Some(false)) || transferring_flag_of(
            accounts[0].data@,
        ) == Some(None::<bool>)) ==> execute_outcome(
            program_id,
            accounts,
            amount,
        ) == Err::<(), ProgramError>(ProgramError::ProgramCalledOutsideOfTransfer),
{
}

/// An execute instruction never succeeds with a record account other than
/// the one derived from the mint and the program.
pub proof fn lemma_execute_needs_derived_record(program_id: Seq<u8>, accounts: Seq<AccountInfo>, amount: u64)
    requires
        accounts.len() >= FIXED_ACCOUNTS,
    ensures
        !is_derived_record(program_id, accounts[1], accounts[4]) ==> execute_outcome(
            program_id,
            accounts,
            amount,
        ) is Err,
        (transferring_check(accounts[0]) is Ok && transferring_check(accounts[2]) is Ok
            && !is_derived_record(program_id, accounts[1], accounts[4])) ==> execute_outcome(
            program_id,
            accounts,
            amount,
        ) == Err::<(), ProgramError>(ProgramError::InvalidSeeds),
{
}

/// After a record holding the single fixed address `x` has been created for
/// a mint, an execute for that mint with that record, whose token accounts
/// are mid-transfer, succeeds exactly when the account after the fixed five
/// is `x` with the meta's flags.
pub proof fn lemma_initialize_then_execute(
    program_id: Seq<u8>,
    before: Seq<AccountInfo>,
    after: Seq<AccountInfo>,
    x: Seq<u8>,
    accounts: Seq<AccountInfo>,
    amount: u64,
)
    requires
        x.len() == 32,
        initialize_post(
            program_id,
            before,
            after,
            seq![MetaModel::Fixed { address: x, is_signer: false, is_writable: false }],
            Ok(()),
        ),
        accounts.len() > FIXED_ACCOUNTS,
        transferring_check(accounts[0]) is Ok,
        transferring_check(accounts[2]) is Ok,
        accounts[1].key == before[1].key,
        accounts[4] == after[0],
    ensures
        execute_outcome(program_id, accounts, amount) is Ok <==> account_matches(
            accounts[5],
            MetaModel::Fixed { address: x, is_signer: false, is_writable: false },
            x,
        ),
{
    let m = MetaModel::Fixed { address: x, is_signer: false, is_writable: false };
    let ms = seq![m];
    assert(record_wf(ms));
    lemma_record_round_trip(ms, seq![]);
    assert(record_bytes(ms) + seq![] =~= record_bytes(ms));
    assert(accounts[4].data@ == record_bytes(ms));
    assert(accounts[4].data@.len() > 0);
    assert(check_from(ms, execute_bytes(amount), accounts, 1) is Ok);
}

} // verus!
