use vstd::prelude::*;

use crate::account::{resize_data, AccountInfo};
use crate::address::{same_address, Address};
use crate::codec::{
    check_encodable, encode_error, has_record_tag, holds_record, lemma_record_bytes_len, record_bytes, written,
    record_size, size_of, update_record,
};
use crate::error::ProgramError;
use crate::initialize::{authority_check, check_mint_authority, record_matches};
use crate::meta::{metas_model, zeros, ExtraAccountMeta, MetaModel};
use crate::pda::is_record_address;

verus! {

/// The number of accounts of an update instruction: validation record, mint
/// and mint authority.
pub const UPDATE_ACCOUNTS: usize = 3;

/// In which order an update resizes the record's account and rewrites it.
#[derive(Clone, Copy, Debug, PartialEq, Eq, Structural)]
pub enum ResizeOrder {
    /// Grow (or keep) the buffer, then write: the write never runs short.
    GrowThenWrite,
    /// Write while the buffer has its old size, then shrink it.
    WriteThenShrink,
}

/// Grow first unless the record shrinks.
pub open spec fn resize_order_spec(new_size: int, current_size: int) -> ResizeOrder {
    if new_size >= current_size {
        ResizeOrder::GrowThenWrite
    } else {
        ResizeOrder::WriteThenShrink
    }
}

/// The order of an update from `current_size` bytes to `new_size`: grow
/// first where the record does not shrink, shrink last where it does.
pub fn resize_order(new_size: usize, current_size: usize) -> (r: ResizeOrder)
    ensures
        r == resize_order_spec(new_size as int, current_size as int),
{
    if new_size >= current_size {
        ResizeOrder::GrowThenWrite
    } else {
        ResizeOrder::WriteThenShrink
    }
}

/// Writes the record of `metas` over the record held in `buf`. The buffer
/// must already have room for the new record: an update grows it first.
fn rewrite_record(buf: &mut Vec<u8>, metas: &Vec<ExtraAccountMeta>)
    requires
        encode_error(metas_model(metas@)) is None,
        holds_record(old(buf)@),
        old(buf)@.len() >= record_size(metas@.len() as int),
    ensures
        final(buf)@ == written(old(buf)@, metas_model(metas@)),
{
    let _ = update_record(buf, metas);
}

/// Shrinks the record's account to `new_len` bytes. The new record must
/// already be written and fill exactly those bytes: an update shrinks last.
fn shrink_after_write(account: &mut AccountInfo, new_len: usize, ms: Ghost<Seq<MetaModel>>)
    requires
        new_len == record_bytes(ms@).len(),
        new_len <= old(account).data@.len(),
        old(account).data@.subrange(0, new_len as int) == record_bytes(ms@),
    ensures
        final(account).data@ == record_bytes(ms@),
        final(account).key == old(account).key,
        final(account).owner == old(account).owner,
        final(account).is_signer == old(account).is_signer,
        final(account).is_writable == old(account).is_writable,
{
    resize_data(account, new_len);
}

/// The checks of an update instruction, in order.
pub open spec fn update_check(program_id: Seq<u8>, accounts: Seq<AccountInfo>, ms: Seq<MetaModel>) -> Result<(), ProgramError> {
    if accounts.len() < UPDATE_ACCOUNTS {
        Err(ProgramError::NotEnoughAccountKeys)
    } else if authority_check(accounts[1], accounts[2]) is Err {
        authority_check(accounts[1], accounts[2])
    } else if !record_matches(program_id, accounts[1], accounts[0]) {
        Err(ProgramError::InvalidSeeds)
    } else if accounts[0].owner@ != program_id || accounts[0].data@.len() < record_size(0) {
        Err(ProgramError::UninitializedAccount)
    } else if record_size(ms.len() as int) > usize::MAX {
        Err(ProgramError::ArithmeticOverflow)
    } else if encode_error(ms) is Some {
        Err(encode_error(ms)->0)
    } else if !holds_record(accounts[0].data@) {
        Err(ProgramError::InvalidAccountData)
    } else {
        Ok(())
    }
}

/// Whether `new` is `old` resized to, and holding, the record of `ms`.
pub open spec fn holds_updated_record(old: AccountInfo, new: AccountInfo, ms: Seq<MetaModel>) -> bool {
    &&& new.key == old.key
    &&& new.owner == old.owner
    &&& new.is_signer == old.is_signer
    &&& new.is_writable == old.is_writable
    &&& new.data@ == record_bytes(ms)
}

/// What an update instruction does with the accounts: fail and leave them,
/// or resize the first to the record of `ms`, write it, and leave the others.
pub open spec fn update_post(
    program_id: Seq<u8>,
    old: Seq<AccountInfo>,
    new: Seq<AccountInfo>,
    ms: Seq<MetaModel>,
    r: Result<(), ProgramError>,
) -> bool {
    match update_check(program_id, old, ms) {
        Err(e) => r == Err::<(), ProgramError>(e) && new == old,
        Ok(()) => {
            &&& r is Ok
            &&& new.len() == old.len()
            &&& forall|j: int| 1 <= j < old.len() ==> new[j] == old[j]
            &&& holds_updated_record(old[0], new[0], ms)
        },
    }
}

/// Rewrites the validation record of a mint with the declared metas,
/// resizing its account: grown before the write, shrunk after it.
pub fn process_update_extra_account_meta_list(
    program_id: &Address,
    accounts: &mut Vec<AccountInfo>,
    extra_account_metas: &Vec<ExtraAccountMeta>,
) -> (r: Result<(), ProgramError>)
    ensures
        update_post(program_id@, old(accounts)@, final(accounts)@, metas_model(extra_account_metas@), r),
{
    let ghost ms = metas_model(extra_account_metas@);
    if accounts.len() < UPDATE_ACCOUNTS {
        return Err(ProgramError::NotEnoughAccountKeys);
    }
    if let Err(e) = check_mint_authority(&accounts[1], &accounts[2]) {
        return Err(e);
    }
    if !is_record_address(&accounts[0].key, &accounts[1].key, program_id) {
        return Err(ProgramError::InvalidSeeds);
    }
    let min_account_size = match size_of(0) {
        Ok(s) => s,
        Err(e) => return Err(e),
    };
    let current_account_size = accounts[0].data.len();
    if !same_address(program_id, &accounts[0].owner) || current_account_size < min_account_size {
        return Err(ProgramError::UninitializedAccount);
    }
    let account_size = match size_of(extra_account_metas.len()) {
        Ok(s) => s,
        Err(e) => return Err(e),
    };
    if let Some(e) = check_encodable(extra_account_metas) {
        return Err(e);
    }
    if !has_record_tag(&accounts[0].data) {
        return Err(ProgramError::InvalidAccountData);
    }
    proof {
        lemma_record_bytes_len(ms);
    }
    // Every failure of the resize and the write was ruled out above, so from
    // here on the record is changed and nothing can fail.
    let ghost old_accounts = accounts@;
    let mut record = accounts.remove(0);
    match resize_order(account_size, current_account_size) {
        ResizeOrder::GrowThenWrite => {
            resize_data(&mut record, account_size);
            proof {
                assert(record.data@.subrange(0, 8) =~= old_accounts[0].data@.subrange(0, 8));
                assert(record_bytes(ms) + zeros(0) =~= record_bytes(ms));
            }
            rewrite_record(&mut record.data, extra_account_metas);
        },
        ResizeOrder::WriteThenShrink => {
            rewrite_record(&mut record.data, extra_account_metas);
            proof {
                assert(record.data@.subrange(0, account_size as int) =~= record_bytes(ms));
            }
            shrink_after_write(&mut record, account_size, Ghost(ms));
        },
    }
    accounts.insert(0, record);
    proof {
        assert(accounts@ =~= old_accounts.update(0, record));
    }
    Ok(())
}

} // verus!
