use kaptn::account::{allocate, assign, AccountInfo, ExtraMetas, TransferContext};
use kaptn::address::Address;
use kaptn::binding::{extra_account, meta_from_declaration, MetaDeclarationError};
use kaptn::codec::{encode_record, size_of, unpack_record};
use kaptn::error::ProgramError;
use kaptn::execute::{
    check_token_account_is_transferring, process_execute, run_transfer_callback, transferring_decision, validate_execute,
};
use kaptn::initialize::{authority_decision, check_mint_authority, process_initialize_extra_account_meta_list};
use kaptn::instruction::pack_execute;
use kaptn::meta::{ExtraAccountMeta, Seed};
use kaptn::pda::{collect_extra_account_metas_signer_seeds, get_extra_account_metas_address_and_bump_seed};
use kaptn::resolve::{resolve_extra_account_meta, resolve_extra_account_metas};
use kaptn::processor::process_instruction;
use kaptn::update::{process_update_extra_account_meta_list, resize_order, ResizeOrder};

use solana_program::program_option::COption;
use solana_program::program_pack::Pack;
use solana_program::pubkey::Pubkey;
use spl_token_2022::extension::transfer_hook::TransferHookAccount;
use spl_token_2022::extension::{BaseStateWithExtensionsMut, ExtensionType, StateWithExtensionsMut};
use spl_token_2022::state::{Account, AccountState, Mint};

const PROGRAM: Address = Address([42u8; 32]);
const MINT: Address = Address([7u8; 32]);
const AUTHORITY: Address = Address([9u8; 32]);
const X: Address = Address([100u8; 32]);
const Y: Address = Address([101u8; 32]);
const SYSTEM: Address = Address([0u8; 32]);

fn info(key: Address, owner: Address, is_signer: bool, is_writable: bool, data: Vec<u8>) -> AccountInfo {
    AccountInfo { key, owner, is_signer, is_writable, data }
}

fn token_account_data(transferring: bool) -> Vec<u8> {
    let len = ExtensionType::try_calculate_account_len::<Account>(&[ExtensionType::TransferHookAccount]).unwrap();
    let mut data = vec![0u8; len];
    let mut state = StateWithExtensionsMut::<Account>::unpack_uninitialized(&mut data).unwrap();
    let ext = state.init_extension::<TransferHookAccount>(true).unwrap();
    ext.transferring = transferring.into();
    state.base = Account {
        mint: Pubkey::new_from_array(MINT.0),
        owner: Pubkey::new_from_array([1u8; 32]),
        amount: 10,
        state: AccountState::Initialized,
        ..Default::default()
    };
    state.pack_base();
    state.init_account_type().unwrap();
    data
}

fn mint_data(authority: Option<Address>) -> Vec<u8> {
    let mut data = vec![0u8; Mint::LEN];
    let mint = Mint {
        mint_authority: match authority {
            Some(a) => COption::Some(Pubkey::new_from_array(a.0)),
            None => COption::None,
        },
        supply: 0,
        decimals: 6,
        is_initialized: true,
        freeze_authority: COption::None,
    };
    Mint::pack(mint, &mut data).unwrap();
    data
}

fn record_key() -> Address {
    get_extra_account_metas_address_and_bump_seed(&MINT, &PROGRAM).unwrap().0
}

fn execute_accounts(source_flag: bool, dest_flag: bool, record: Address, record_data: Vec<u8>, tail: Vec<AccountInfo>) -> Vec<AccountInfo> {
    let mut v = vec![
        info(Address([1u8; 32]), SYSTEM, false, true, token_account_data(source_flag)),
        info(MINT, SYSTEM, false, false, mint_data(Some(AUTHORITY))),
        info(Address([2u8; 32]), SYSTEM, false, true, token_account_data(dest_flag)),
        info(AUTHORITY, SYSTEM, true, false, vec![]),
        info(record, PROGRAM, false, false, record_data),
    ];
    v.extend(tail);
    v
}

fn init_accounts(signed: bool, authority_key: Address, record: Address) -> Vec<AccountInfo> {
    vec![
        info(record, SYSTEM, false, true, vec![]),
        info(MINT, SYSTEM, false, false, mint_data(Some(AUTHORITY))),
        info(authority_key, SYSTEM, signed, false, vec![]),
        info(SYSTEM, SYSTEM, false, false, vec![]),
    ]
}

fn fixed(a: Address) -> ExtraAccountMeta {
    ExtraAccountMeta::FixedAddress { address: a, is_signer: false, is_writable: false }
}

fn ok_callback(_ctx: TransferContext<()>) -> Result<(), ProgramError> {
    Ok(())
}

struct OneFixed;

impl ExtraMetas for OneFixed {
    fn from_accounts(accounts: &Vec<AccountInfo>) -> Result<Self, ProgramError> {
        if accounts.len() > 5 {
            Ok(OneFixed)
        } else {
            Err(ProgramError::NotEnoughAccountKeys)
        }
    }

    fn to_extra_account_metas() -> Vec<ExtraAccountMeta> {
        vec![fixed(X)]
    }
}

#[test]
fn transferring_flag_is_read() {
    let yes = info(X, SYSTEM, false, false, token_account_data(true));
    let no = info(X, SYSTEM, false, false, token_account_data(false));
    let junk = info(X, SYSTEM, false, false, vec![1, 2, 3]);
    assert_eq!(check_token_account_is_transferring(&yes), Ok(()));
    assert_eq!(check_token_account_is_transferring(&no), Err(ProgramError::ProgramCalledOutsideOfTransfer));
    assert_eq!(check_token_account_is_transferring(&junk), Err(ProgramError::InvalidAccountData));
}

#[test]
fn execute_rejects_source_not_transferring() {
    let accounts = execute_accounts(false, true, record_key(), vec![], vec![]);
    assert_eq!(validate_execute(&PROGRAM, &accounts, 5), Err(ProgramError::ProgramCalledOutsideOfTransfer));
    assert_eq!(process_execute(&PROGRAM, &accounts, 5, ok_callback), Err(ProgramError::ProgramCalledOutsideOfTransfer));
}

#[test]
fn execute_rejects_destination_not_transferring() {
    let accounts = execute_accounts(true, false, record_key(), vec![], vec![]);
    assert_eq!(validate_execute(&PROGRAM, &accounts, 5), Err(ProgramError::ProgramCalledOutsideOfTransfer));
}

#[test]
fn execute_rejects_tampered_record_address() {
    let mut key = record_key();
    key.0[31] ^= 0x40;
    let accounts = execute_accounts(true, true, key, vec![], vec![]);
    assert_eq!(validate_execute(&PROGRAM, &accounts, 5), Err(ProgramError::InvalidSeeds));
}

#[test]
fn execute_needs_five_accounts() {
    let mut accounts = execute_accounts(true, true, record_key(), vec![], vec![]);
    accounts.pop();
    assert_eq!(validate_execute(&PROGRAM, &accounts, 5), Err(ProgramError::NotEnoughAccountKeys));
}

#[test]
fn execute_with_empty_record_runs_callback() {
    let accounts = execute_accounts(true, true, record_key(), vec![], vec![]);
    let seen = std::cell::Cell::new(0u64);
    let r = process_execute::<(), _>(&PROGRAM, &accounts, 77, |ctx| {
        seen.set(ctx.amount);
        assert_eq!(ctx.mint.key, MINT);
        assert_eq!(ctx.mint.data, mint_data(Some(AUTHORITY)));
        assert_eq!(ctx.source_account.data, token_account_data(true));
        assert_eq!(ctx.authority.key, AUTHORITY);
        assert!(ctx.authority.is_signer);
        assert_eq!(ctx.extra_account_metas.key, record_key());
        assert_eq!(ctx.program_id, PROGRAM);
        Err(ProgramError::Custom(3))
    });
    assert_eq!(r, Err(ProgramError::Custom(3)));
    assert_eq!(seen.get(), 77);
}

#[test]
fn execute_checks_derived_extra_account() {
    let seeds_meta = ExtraAccountMeta::SeedDerived {
        program_index: 6,
        seeds: vec![Seed::Literal { bytes: b"cfg".to_vec() }, Seed::AccountKey { index: 1 }, Seed::InstructionData { index: 1, length: 8 }],
        is_signer: false,
        is_writable: true,
    };
    let record = encode_record(&vec![seeds_meta]).unwrap();
    let other_program = Address([55u8; 32]);
    let amount: u64 = 1234;
    let (pda, _) = Pubkey::find_program_address(&[b"cfg", &MINT.0, &amount.to_le_bytes()], &Pubkey::new_from_array(other_program.0));
    let good = info(Address(pda.to_bytes()), other_program, false, true, vec![]);
    let accounts = execute_accounts(true, true, record_key(), record.clone(), vec![info(other_program, SYSTEM, false, false, vec![]), good]);
    assert_eq!(validate_execute(&PROGRAM, &accounts, amount), Err(ProgramError::IncorrectAccount));
    let program_acc = info(other_program, SYSTEM, false, false, vec![]);
    let mut pda_key = pda.to_bytes();
    let accounts2 = execute_accounts(true, true, record_key(), record.clone(), vec![]);
    assert_eq!(validate_execute(&PROGRAM, &accounts2, amount), Err(ProgramError::NotEnoughAccountKeys));
    let accounts3 = {
        let mut v = execute_accounts(true, true, record_key(), record.clone(), vec![]);
        v.push(info(Address(pda_key), other_program, false, true, vec![]));
        v.push(program_acc.clone());
        v
    };
    assert_eq!(validate_execute(&PROGRAM, &accounts3, amount), Ok(()));
    pda_key[0] ^= 1;
    let accounts4 = {
        let mut v = execute_accounts(true, true, record_key(), record, vec![]);
        v.push(info(Address(pda_key), other_program, false, true, vec![]));
        v.push(program_acc);
        v
    };
    assert_eq!(validate_execute(&PROGRAM, &accounts4, amount), Err(ProgramError::IncorrectAccount));
}

#[test]
fn mint_authority_checks() {
    let mint = info(MINT, SYSTEM, false, false, mint_data(Some(AUTHORITY)));
    let no_auth_mint = info(MINT, SYSTEM, false, false, mint_data(None));
    assert_eq!(check_mint_authority(&mint, &info(AUTHORITY, SYSTEM, true, false, vec![])), Ok(()));
    assert_eq!(check_mint_authority(&mint, &info(AUTHORITY, SYSTEM, false, false, vec![])), Err(ProgramError::MissingRequiredSignature));
    assert_eq!(check_mint_authority(&mint, &info(Y, SYSTEM, true, false, vec![])), Err(ProgramError::IncorrectMintAuthority));
    assert_eq!(check_mint_authority(&no_auth_mint, &info(AUTHORITY, SYSTEM, true, false, vec![])), Err(ProgramError::MintHasNoMintAuthority));
    assert_eq!(check_mint_authority(&info(MINT, SYSTEM, false, false, vec![0; 3]), &info(AUTHORITY, SYSTEM, true, false, vec![])), Err(ProgramError::InvalidAccountData));
}

#[test]
fn initialize_rejects_unsigned_authority() {
    let mut accounts = init_accounts(false, AUTHORITY, record_key());
    let before = accounts.clone();
    assert_eq!(process_initialize_extra_account_meta_list(&PROGRAM, &mut accounts, &vec![]), Err(ProgramError::MissingRequiredSignature));
    assert_eq!(accounts, before);
}

#[test]
fn initialize_rejects_wrong_authority() {
    let mut accounts = init_accounts(true, Y, record_key());
    assert_eq!(process_initialize_extra_account_meta_list(&PROGRAM, &mut accounts, &vec![]), Err(ProgramError::IncorrectMintAuthority));
}

#[test]
fn initialize_rejects_wrong_record_address() {
    let mut accounts = init_accounts(true, AUTHORITY, X);
    assert_eq!(process_initialize_extra_account_meta_list(&PROGRAM, &mut accounts, &vec![]), Err(ProgramError::InvalidSeeds));
}

#[test]
fn initialize_creates_record() {
    let mut accounts = init_accounts(true, AUTHORITY, record_key());
    let metas = vec![fixed(X), fixed(Y)];
    assert_eq!(process_initialize_extra_account_meta_list(&PROGRAM, &mut accounts, &metas), Ok(()));
    assert_eq!(accounts[0].owner, PROGRAM);
    assert_eq!(accounts[0].data.len(), size_of(2).unwrap());
    assert_eq!(unpack_record(&accounts[0].data), Ok(metas.clone()));
    assert_eq!(
        process_initialize_extra_account_meta_list(&PROGRAM, &mut accounts, &metas),
        Err(ProgramError::AccountAlreadyInUse)
    );
}

fn initialized_accounts(metas: &Vec<ExtraAccountMeta>) -> Vec<AccountInfo> {
    let mut accounts = init_accounts(true, AUTHORITY, record_key());
    process_initialize_extra_account_meta_list(&PROGRAM, &mut accounts, metas).unwrap();
    accounts.truncate(3);
    accounts
}

#[test]
fn update_grows_before_writing() {
    let mut accounts = initialized_accounts(&vec![]);
    let old_len = accounts[0].data.len();
    let metas = vec![fixed(X), fixed(Y), fixed(MINT)];
    let new_len = size_of(3).unwrap();
    assert_eq!(resize_order(new_len, old_len), ResizeOrder::GrowThenWrite);
    assert_eq!(process_update_extra_account_meta_list(&PROGRAM, &mut accounts, &metas), Ok(()));
    assert_eq!(accounts[0].data.len(), new_len);
    assert_eq!(unpack_record(&accounts[0].data), Ok(metas));
    assert_eq!(accounts[0].owner, PROGRAM);
}

#[test]
fn update_shrinks_after_writing() {
    let metas = vec![fixed(X), fixed(Y), fixed(MINT)];
    let mut accounts = initialized_accounts(&metas);
    let old_len = accounts[0].data.len();
    assert_eq!(old_len, size_of(3).unwrap());
    assert_eq!(resize_order(size_of(0).unwrap(), old_len), ResizeOrder::WriteThenShrink);
    assert_eq!(process_update_extra_account_meta_list(&PROGRAM, &mut accounts, &vec![]), Ok(()));
    assert_eq!(accounts[0].data, encode_record(&vec![]).unwrap());
}

#[test]
fn update_requires_initialized_record() {
    let mut accounts = init_accounts(true, AUTHORITY, record_key());
    accounts.truncate(3);
    assert_eq!(process_update_extra_account_meta_list(&PROGRAM, &mut accounts, &vec![]), Err(ProgramError::UninitializedAccount));
    let short = init_accounts(true, AUTHORITY, record_key());
    assert_eq!(process_update_extra_account_meta_list(&PROGRAM, &mut short[..2].to_vec(), &vec![]), Err(ProgramError::NotEnoughAccountKeys));
}

#[test]
fn update_rejects_wrong_authority() {
    let mut accounts = initialized_accounts(&vec![]);
    accounts[2].is_signer = false;
    assert_eq!(process_update_extra_account_meta_list(&PROGRAM, &mut accounts, &vec![fixed(X)]), Err(ProgramError::MissingRequiredSignature));
}

#[test]
fn end_to_end_initialize_then_execute() {
    let mut accounts = init_accounts(true, AUTHORITY, record_key());
    assert_eq!(process_instruction::<OneFixed, _>(&PROGRAM, &mut accounts, &vec![1u8, 0, 0, 0, 0], |_ctx| Ok(())), Ok(()));
    let record_data = accounts[0].data.clone();
    assert_eq!(unpack_record(&record_data), Ok(vec![fixed(X)]));
    let ix = pack_execute(500);
    let mut good = execute_accounts(true, true, record_key(), record_data.clone(), vec![info(X, SYSTEM, false, false, vec![])]);
    assert_eq!(process_instruction::<OneFixed, _>(&PROGRAM, &mut good, &ix, |ctx| {
        assert_eq!(ctx.amount, 500);
        Ok(())
    }), Ok(()));
    let mut bad = execute_accounts(true, true, record_key(), record_data, vec![info(Y, SYSTEM, false, false, vec![])]);
    assert_eq!(process_instruction::<OneFixed, _>(&PROGRAM, &mut bad, &ix, |_ctx| Ok(())), Err(ProgramError::IncorrectAccount));
}

#[test]
fn dispatcher_refuses_bad_data_and_updates() {
    let mut accounts = init_accounts(true, AUTHORITY, record_key());
    assert_eq!(process_instruction::<(), _>(&PROGRAM, &mut accounts, &vec![9u8], ok_callback), Err(ProgramError::InvalidInstructionData));
    assert_eq!(process_instruction::<(), _>(&PROGRAM, &mut accounts, &vec![1u8, 0, 0, 0, 0], ok_callback), Ok(()));
    accounts.truncate(3);
    assert_eq!(process_instruction::<OneFixed, _>(&PROGRAM, &mut accounts, &vec![2u8, 0, 0, 0, 0], |_ctx| Ok(())), Ok(()));
    assert_eq!(unpack_record(&accounts[0].data), Ok(vec![fixed(X)]));
}

#[test]
fn declarations_give_metas() {
    let seeds = vec![Seed::Literal { bytes: b"a".to_vec() }];
    assert_eq!(meta_from_declaration(Some(X), Some(seeds.clone()), false, false), Err(MetaDeclarationError::BothPubkeyAndSeeds));
    assert_eq!(meta_from_declaration(None, None, false, false), Err(MetaDeclarationError::NeitherPubkeyNorSeeds));
    assert_eq!(
        meta_from_declaration(Some(X), None, true, false),
        Ok(ExtraAccountMeta::FixedAddress { address: X, is_signer: true, is_writable: false })
    );
    assert_eq!(
        meta_from_declaration(None, Some(seeds.clone()), false, true),
        Ok(ExtraAccountMeta::SeedDerived { program_index: 0, seeds, is_signer: false, is_writable: true })
    );
}

#[test]
fn extra_accounts_follow_the_fixed_five() {
    let accounts = execute_accounts(true, true, record_key(), vec![], vec![info(X, SYSTEM, false, false, vec![]), info(Y, SYSTEM, false, false, vec![])]);
    assert_eq!(extra_account(&accounts, 0).unwrap().key, X);
    assert_eq!(extra_account(&accounts, 1).unwrap().key, Y);
    assert_eq!(extra_account(&accounts, 2), Err(ProgramError::NotEnoughAccountKeys));
    assert_eq!(extra_account(&accounts[..3].to_vec(), 0), Err(ProgramError::NotEnoughAccountKeys));
}

#[test]
fn seeds_past_the_data_do_not_resolve() {
    let meta = ExtraAccountMeta::SeedDerived {
        program_index: 0,
        seeds: vec![Seed::InstructionData { index: 5, length: 8 }],
        is_signer: false,
        is_writable: false,
    };
    let accounts = vec![info(X, SYSTEM, false, false, vec![1, 2, 3])];
    assert_eq!(resolve_extra_account_meta(&meta, &pack_execute(1), &accounts), Err(ProgramError::SeedOutOfRange));
    let data_meta = ExtraAccountMeta::SeedDerived {
        program_index: 0,
        seeds: vec![Seed::AccountData { account_index: 0, data_index: 1, length: 2 }],
        is_signer: false,
        is_writable: false,
    };
    let (expected, _) = Pubkey::find_program_address(&[&[2u8, 3]], &Pubkey::new_from_array(X.0));
    assert_eq!(resolve_extra_account_meta(&data_meta, &pack_execute(1), &accounts), Ok(Address(expected.to_bytes())));
    let fixed_meta = fixed(Y);
    assert_eq!(resolve_extra_account_meta(&fixed_meta, &vec![], &vec![]), Ok(Y));
}

#[test]
fn list_resolution_keeps_order() {
    let derived = ExtraAccountMeta::SeedDerived {
        program_index: 0,
        seeds: vec![Seed::Literal { bytes: b"z".to_vec() }],
        is_signer: false,
        is_writable: false,
    };
    let accounts = vec![info(X, SYSTEM, false, false, vec![])];
    let (pda, _) = Pubkey::find_program_address(&[b"z"], &Pubkey::new_from_array(X.0));
    let metas = vec![fixed(Y), derived.clone(), fixed(X)];
    assert_eq!(resolve_extra_account_metas(&metas, &vec![], &accounts), Ok(vec![Y, Address(pda.to_bytes()), X]));
    let failing = vec![fixed(Y), ExtraAccountMeta::SeedDerived { program_index: 3, seeds: vec![], is_signer: false, is_writable: false }, derived];
    assert_eq!(resolve_extra_account_metas(&failing, &vec![], &accounts), Err(ProgramError::NotEnoughAccountKeys));
    assert_eq!(resolve_extra_account_metas(&vec![], &vec![], &vec![]), Ok(vec![]));
}

#[test]
fn decisions_on_read_values() {
    assert_eq!(transferring_decision(Some(Some(true))), Ok(()));
    assert_eq!(transferring_decision(Some(Some(false))), Err(ProgramError::ProgramCalledOutsideOfTransfer));
    assert_eq!(transferring_decision(Some(None)), Err(ProgramError::ProgramCalledOutsideOfTransfer));
    assert_eq!(transferring_decision(None), Err(ProgramError::InvalidAccountData));
    let signer = info(AUTHORITY, SYSTEM, true, false, vec![]);
    assert_eq!(authority_decision(Some(Some(AUTHORITY)), &signer), Ok(()));
    assert_eq!(authority_decision(Some(Some(Y)), &signer), Err(ProgramError::IncorrectMintAuthority));
    assert_eq!(authority_decision(Some(None), &signer), Err(ProgramError::MintHasNoMintAuthority));
    assert_eq!(authority_decision(None, &signer), Err(ProgramError::InvalidAccountData));
    assert_eq!(
        authority_decision(Some(Some(AUTHORITY)), &info(AUTHORITY, SYSTEM, false, false, vec![])),
        Err(ProgramError::MissingRequiredSignature)
    );
}

fn plain_token_account_data() -> Vec<u8> {
    let mut data = vec![0u8; Account::LEN];
    let account = Account {
        mint: Pubkey::new_from_array(MINT.0),
        owner: Pubkey::new_from_array([1u8; 32]),
        amount: 10,
        state: AccountState::Initialized,
        ..Default::default()
    };
    Account::pack(account, &mut data).unwrap();
    data
}

#[test]
fn token_account_without_hook_extension_is_outside_transfer() {
    let plain = info(X, SYSTEM, false, false, plain_token_account_data());
    assert_eq!(check_token_account_is_transferring(&plain), Err(ProgramError::ProgramCalledOutsideOfTransfer));
    let mut accounts = execute_accounts(true, true, record_key(), vec![], vec![]);
    accounts[2].data = plain_token_account_data();
    assert_eq!(validate_execute(&PROGRAM, &accounts, 1), Err(ProgramError::ProgramCalledOutsideOfTransfer));
}

#[test]
fn unit_binding_declares_nothing() {
    assert_eq!(<() as ExtraMetas>::to_extra_account_metas(), vec![]);
    assert_eq!(<() as ExtraMetas>::from_accounts(&vec![]), Ok(()));
}

#[test]
fn callback_step_gets_context_and_its_result_returns() {
    let accounts = execute_accounts(true, true, record_key(), vec![], vec![]);
    let r = run_transfer_callback(&PROGRAM, &accounts, 9, OneFixed, |ctx: TransferContext<OneFixed>| {
        assert_eq!(ctx.amount, 9);
        assert_eq!(ctx.destination_account.key, Address([2u8; 32]));
        Err(ProgramError::Custom(7))
    });
    assert_eq!(r, Err(ProgramError::Custom(7)));
}

#[test]
fn allocation_needs_the_record_seeds() {
    let (key, bump) = get_extra_account_metas_address_and_bump_seed(&MINT, &PROGRAM).unwrap();
    let seeds = collect_extra_account_metas_signer_seeds(&MINT, bump);
    assert_eq!(seeds, vec![b"extra-account-metas".to_vec(), MINT.0.to_vec(), vec![bump]]);
    let mut acc = info(key, SYSTEM, false, true, vec![]);
    let wrong = collect_extra_account_metas_signer_seeds(&Y, bump);
    assert_eq!(allocate(&mut acc, 10, &PROGRAM, &wrong), Err(ProgramError::MissingRequiredSignature));
    assert_eq!(assign(&mut acc, &PROGRAM, &PROGRAM, &wrong), Err(ProgramError::MissingRequiredSignature));
    assert_eq!(allocate(&mut acc, 10, &PROGRAM, &seeds), Ok(()));
    assert_eq!(acc.data, vec![0u8; 10]);
    assert_eq!(allocate(&mut acc, 10, &PROGRAM, &seeds), Err(ProgramError::AccountAlreadyInUse));
    assert_eq!(assign(&mut acc, &PROGRAM, &PROGRAM, &seeds), Ok(()));
    assert_eq!(acc.owner, PROGRAM);
}
