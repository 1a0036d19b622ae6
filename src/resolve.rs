use vstd::prelude::*;

use crate::account::AccountInfo;
use crate::address::{same_address, Address};
use crate::codec::{parse_record, unpack_record};
use crate::error::ProgramError;
use crate::meta::{copy_bytes, seeds_model, ExtraAccountMeta, MetaModel, Seed, SeedModel};
use crate::pda::{derived_address, find_program_address, seeds_view};

verus! {

/// The number of fixed accounts of an execute instruction: source, mint,
/// destination, authority and validation record.
pub const FIXED_ACCOUNTS: usize = 5;

/// The bytes that a seed stands for, given the instruction data and the
/// supplied accounts; `None` where it reaches past them.
pub open spec fn seed_value(s: SeedModel, ix: Seq<u8>, accounts: Seq<AccountInfo>) -> Option<Seq<u8>> {
    match s {
        SeedModel::Literal(b) => Some(b),
        SeedModel::InstructionData(i, l) => if i + l <= ix.len() {
            Some(ix.subrange(i as int, i + l))
        } else {
            None
        },
        SeedModel::AccountKey(i) => if i < accounts.len() {
            Some(accounts[i as int].key@)
        } else {
            None
        },
        SeedModel::AccountData(a, d, l) => if a < accounts.len() && d + l <= accounts[a as int].data@.len() {
            Some(accounts[a as int].data@.subrange(d as int, d + l))
        } else {
            None
        },
    }
}

/// The bytes of every seed, where all of them can be had.
pub open spec fn seed_values(seeds: Seq<SeedModel>, ix: Seq<u8>, accounts: Seq<AccountInfo>) -> Option<Seq<Seq<u8>>> {
    if forall|i: int| 0 <= i < seeds.len() ==> #[trigger] seed_value(seeds[i], ix, accounts) is Some {
        Some(Seq::new(seeds.len(), |i: int| seed_value(seeds[i], ix, accounts)->0))
    } else {
        None
    }
}

/// The address that a meta stands for: its literal address, or the
/// program-derived address of its seeds under the program at its index.
pub open spec fn resolve_meta(m: MetaModel, ix: Seq<u8>, accounts: Seq<AccountInfo>) -> Result<Seq<u8>, ProgramError> {
    match m {
        MetaModel::Fixed { address, .. } => Ok(address),
        MetaModel::Derived { program_index, seeds, .. } => if program_index >= accounts.len() {
            Err(ProgramError::NotEnoughAccountKeys)
        } else {
            match seed_values(seeds, ix, accounts) {
                None => Err(ProgramError::SeedOutOfRange),
                Some(sv) => match derived_address(sv, accounts[program_index as int].key@) {
                    Some((a, _)) => Ok(a),
                    None => Err(ProgramError::InvalidSeeds),
                },
            }
        },
    }
}

/// Whether the supplied account matches a resolved meta: same address, same
/// signer and writable flags.
pub open spec fn account_matches(a: AccountInfo, m: MetaModel, addr: Seq<u8>) -> bool {
    a.key@ == addr && a.is_signer == m.is_signer() && a.is_writable == m.is_writable()
}

/// Checks the metas from the `i`-th on, in order: the first that does not
/// resolve, or whose account after the fixed ones differs, decides the
/// failure.
pub open spec fn check_from(ms: Seq<MetaModel>, ix: Seq<u8>, accounts: Seq<AccountInfo>, i: int) -> Result<(), ProgramError>
    decreases ms.len() - i,
{
    if i < 0 || i >= ms.len() {
        Ok(())
    } else {
        match resolve_meta(ms[i], ix, accounts) {
            Err(e) => Err(e),
            Ok(addr) => if FIXED_ACCOUNTS + i >= accounts.len() || !account_matches(
                accounts[FIXED_ACCOUNTS + i],
                ms[i],
                addr,
            ) {
                Err(ProgramError::IncorrectAccount)
            } else {
                check_from(ms, ix, accounts, i + 1)
            },
        }
    }
}

/// What checking the supplied accounts against a stored record gives.
pub open spec fn check_outcome(accounts: Seq<AccountInfo>, ix: Seq<u8>, record: Seq<u8>) -> Result<(), ProgramError> {
    match parse_record(record) {
        None => Err(ProgramError::InvalidAccountData),
        Some(ms) => check_from(ms, ix, accounts, 0),
    }
}

/// The bytes of one seed.
pub fn resolve_seed(s: &Seed, ix: &Vec<u8>, accounts: &Vec<AccountInfo>) -> (r: Option<Vec<u8>>)
    ensures
        match seed_value(s@, ix@, accounts@) {
            Some(v) => r matches Some(x) && x@ == v,
            None => r is None,
        },
{
    match s {
        Seed::Literal { bytes } => Some(copy_bytes(bytes, 0, bytes.len())),
        Seed::InstructionData { index, length } => {
            let i = *index as usize;
            let l = *length as usize;
            if i + l <= ix.len() {
                Some(copy_bytes(ix, i, i + l))
            } else {
                None
            }
        },
        Seed::AccountKey { index } => {
            let i = *index as usize;
            if i < accounts.len() {
                Some(accounts[i].key.to_vec())
            } else {
                None
            }
        },
        Seed::AccountData { account_index, data_index, length } => {
            let a = *account_index as usize;
            let d = *data_index as usize;
            let l = *length as usize;
            if a < accounts.len() && d + l <= accounts[a].data.len() {
                Some(copy_bytes(&accounts[a].data, d, d + l))
            } else {
                None
            }
        },
    }
}

/// The bytes of every seed, in order.
pub fn resolve_seeds(seeds: &Vec<Seed>, ix: &Vec<u8>, accounts: &Vec<AccountInfo>) -> (r: Option<Vec<Vec<u8>>>)
    ensures
        match seed_values(seeds_model(seeds@), ix@, accounts@) {
            Some(v) => r matches Some(x) && seeds_view(x@) == v,
            None => r is None,
        },
{
    let ghost sm = seeds_model(seeds@);
    let mut out: Vec<Vec<u8>> = Vec::new();
    let mut i: usize = 0;
    while i < seeds.len()
        invariant
            i <= seeds@.len(),
            sm == seeds_model(seeds@),
            forall|j: int| 0 <= j < i ==> #[trigger] seed_value(sm[j], ix@, accounts@) is Some,
            seeds_view(out@) == Seq::new(i as nat, |j: int| seed_value(sm[j], ix@, accounts@)->0),
        decreases seeds@.len() - i,
    {
        proof {
            assert(sm[i as int] == seeds@[i as int]@);
        }
        match resolve_seed(&seeds[i], ix, accounts) {
            Some(v) => {
                let ghost prev = out@;
                out.push(v);
                proof {
                    assert(out@ =~= prev.push(v));
                    assert(seeds_view(out@) =~= seeds_view(prev).push(v@));
                    assert(seeds_view(out@) =~= Seq::new(
                        (i + 1) as nat,
                        |j: int| seed_value(sm[j], ix@, accounts@)->0,
                    ));
                }
            },
            None => {
                return None;
            },
        }
        i = i + 1;
    }
    proof {
        assert(seeds_view(out@) =~= Seq::new(sm.len(), |j: int| seed_value(sm[j], ix@, accounts@)->0));
    }
    Some(out)
}

/// The address that a meta stands for, given the instruction data and the
/// supplied accounts.
pub fn resolve_extra_account_meta(m: &ExtraAccountMeta, ix: &Vec<u8>, accounts: &Vec<AccountInfo>) -> (r: Result<Address, ProgramError>)
    ensures
        match resolve_meta(m@, ix@, accounts@) {
            Ok(a) => r matches Ok(x) && x@ == a,
            Err(e) => r == Err::<Address, ProgramError>(e),
        },
{
    match m {
        ExtraAccountMeta::FixedAddress { address, .. } => Ok(*address),
        ExtraAccountMeta::SeedDerived { program_index, seeds, .. } => {
            let p = *program_index as usize;
            if p >= accounts.len() {
                return Err(ProgramError::NotEnoughAccountKeys);
            }
            match resolve_seeds(seeds, ix, accounts) {
                None => Err(ProgramError::SeedOutOfRange),
                Some(values) => match find_program_address(&values, &accounts[p].key) {
                    Some((a, _)) => Ok(a),
                    None => Err(ProgramError::InvalidSeeds),
                },
            }
        },
    }
}

fn flags_of(m: &ExtraAccountMeta) -> (r: (bool, bool))
    ensures
        r.0 == m@.is_signer(),
        r.1 == m@.is_writable(),
{
    match m {
        ExtraAccountMeta::FixedAddress { is_signer, is_writable, .. } => (*is_signer, *is_writable),
        ExtraAccountMeta::SeedDerived { is_signer, is_writable, .. } => (*is_signer, *is_writable),
    }
}

/// Checks the accounts supplied after the fixed ones against the record in
/// `record`: each meta, in order, must resolve to the address of the account
/// at its position, with the same flags.
pub fn check_account_infos(accounts: &Vec<AccountInfo>, ix: &Vec<u8>, record: &Vec<u8>) -> (r: Result<(), ProgramError>)
    ensures
        r == check_outcome(accounts@, ix@, record@),
{
    let metas = match unpack_record(record) {
        Ok(ms) => ms,
        Err(e) => return Err(e),
    };
    let ghost ms = crate::meta::metas_model(metas@);
    let mut i: usize = 0;
    while i < metas.len()
        invariant
            i <= metas@.len(),
            ms == crate::meta::metas_model(metas@),
            parse_record(record@) == Some(ms),
            check_from(ms, ix@, accounts@, 0) == check_from(ms, ix@, accounts@, i as int),
        decreases metas@.len() - i,
    {
        proof {
            assert(ms[i as int] == metas@[i as int]@);
        }
        let addr = match resolve_extra_account_meta(&metas[i], ix, accounts) {
            Ok(a) => a,
            Err(e) => return Err(e),
        };
        let (signer, writable) = flags_of(&metas[i]);
        if i >= accounts.len() || FIXED_ACCOUNTS >= accounts.len() - i {
            return Err(ProgramError::IncorrectAccount);
        }
        let acc = &accounts[FIXED_ACCOUNTS + i];
        if !same_address(&acc.key, &addr) || acc.is_signer != signer || acc.is_writable != writable {
            return Err(ProgramError::IncorrectAccount);
        }
        i = i + 1;
    }
    Ok(())
}

/// The addresses of the first `n` metas, in order; the first meta that does
/// not resolve decides the failure.
pub open spec fn resolve_prefix(ms: Seq<MetaModel>, ix: Seq<u8>, accounts: Seq<AccountInfo>, n: int) -> Result<Seq<Seq<u8>>, ProgramError>
    decreases n,
{
    if n <= 0 {
        Ok(seq![])
    } else {
        match resolve_prefix(ms, ix, accounts, n - 1) {
            Err(e) => Err(e),
            Ok(v) => match resolve_meta(ms[n - 1], ix, accounts) {
                Err(e) => Err(e),
                Ok(a) => Ok(v.push(a)),
            },
        }
    }
}

proof fn lemma_resolve_prefix_stays_failed(ms: Seq<MetaModel>, ix: Seq<u8>, accounts: Seq<AccountInfo>, k: int, n: int)
    requires
        0 <= k <= n,
        resolve_prefix(ms, ix, accounts, k) is Err,
    ensures
        resolve_prefix(ms, ix, accounts, n) == resolve_prefix(ms, ix, accounts, k),
    decreases n - k,
{
    if k < n {
        lemma_resolve_prefix_stays_failed(ms, ix, accounts, k, n - 1);
    }
}

/// The addresses that a list of metas stands for, in the list's order.
pub fn resolve_extra_account_metas(metas: &Vec<ExtraAccountMeta>, ix: &Vec<u8>, accounts: &Vec<AccountInfo>) -> (r: Result<Vec<Address>, ProgramError>)
    ensures
        match resolve_prefix(crate::meta::metas_model(metas@), ix@, accounts@, metas@.len() as int) {
            Ok(v) => r matches Ok(x) && x@.len() == v.len() && forall|i: int|
                0 <= i < v.len() ==> #[trigger] x@[i]@ == v[i],
            Err(e) => r == Err::<Vec<Address>, ProgramError>(e),
        },
{
    let ghost ms = crate::meta::metas_model(metas@);
    let mut out: Vec<Address> = Vec::new();
    let mut i: usize = 0;
    while i < metas.len()
        invariant
            i <= metas@.len(),
            ms == crate::meta::metas_model(metas@),
            resolve_prefix(ms, ix@, accounts@, i as int) matches Ok(v) && out@.len() == v.len()
                && forall|j: int| 0 <= j < v.len() ==> #[trigger] out@[j]@ == v[j],
        decreases metas@.len() - i,
    {
        proof {
            assert(ms[i as int] == metas@[i as int]@);
        }
        match resolve_extra_account_meta(&metas[i], ix, accounts) {
            Ok(a) => {
                out.push(a);
            },
            Err(e) => {
                proof {
                    assert(resolve_prefix(ms, ix@, accounts@, i + 1) == Err::<Seq<Seq<u8>>, ProgramError>(e));
                    lemma_resolve_prefix_stays_failed(ms, ix@, accounts@, i + 1, ms.len() as int);
                }
                return Err(e);
            },
        }
        i = i + 1;
    }
    Ok(out)
}

} // verus!
